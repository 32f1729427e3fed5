use multithreaded_tcp_http::codec::{decode_frame, encode_frame, file_frame, find, frame_with_extension};
use multithreaded_tcp_http::command::{parse_command, Command};
use multithreaded_tcp_http::registry::{Connection, Registry};
use multithreaded_tcp_http::session::{name_for_received_file, received_file_name, session_log_entry, log_line, strip_padding, SessionHandler};
use multithreaded_tcp_http::sniffer::{classify, Classification};

fn methods() -> Vec<String> {
    vec!["GET".to_string(), "POST".to_string(), "OPTIONS".to_string(), "HEAD".to_string()]
}

#[test]
fn encode_frame_exact_bytes() {
    let f = encode_frame(b"txt", b"hello");
    assert_eq!(f, b">>>FILE_START>>>:txt\r\nhello<<<FILE_END<<<".to_vec());
}

#[test]
fn decode_of_encode_round_trips() {
    let payloads: Vec<Vec<u8>> = vec![vec![], b"abc".to_vec(), vec![0, 255, 13, 10, 60, 60], b"line\r\nline".to_vec()];
    for p in payloads {
        let f = encode_frame(b"bin", &p);
        let (ext, back) = decode_frame(&f).unwrap();
        assert_eq!(ext, b"bin".to_vec());
        assert_eq!(back, p);
    }
}

#[test]
fn payload_holding_end_marker_is_cut_short() {
    let f = encode_frame(b"txt", b"ab<<<FILE_END<<<cd");
    let (_, back) = decode_frame(&f).unwrap();
    assert_eq!(back, b"ab".to_vec());
    let g = encode_frame(b"txt", b"x<<<FILE_END");
    let (_, back2) = decode_frame(&g).unwrap();
    assert_eq!(back2, b"x".to_vec());
}

#[test]
fn decode_without_markers_gives_nothing() {
    assert!(decode_frame(b"plain text").is_none());
    assert!(decode_frame(b">>>FILE_START>>>:txt no terminator").is_none());
    assert!(decode_frame(b">>>FILE_START>>>:txt\r\nno end").is_none());
}

#[test]
fn find_first_occurrence_from_start() {
    assert_eq!(find(b"abcabc", b"bc", 0), Some(1));
    assert_eq!(find(b"abcabc", b"bc", 2), Some(4));
    assert_eq!(find(b"abcabc", b"x", 0), None);
    assert_eq!(find(b"ab", b"abc", 0), None);
}

#[test]
fn file_frame_uses_path_extension() {
    let f = file_frame("/tmp/a.txt", b"data").unwrap();
    assert_eq!(f, b">>>FILE_START>>>:txt\r\ndata<<<FILE_END<<<".to_vec());
    assert!(file_frame("/tmp/noext", b"data").is_none());
    assert_eq!(frame_with_extension("md", b""), b">>>FILE_START>>>:md\r\n<<<FILE_END<<<".to_vec());
}

#[test]
fn sendf_to_single_matching_entry_transmits_frame() {
    let cmd = parse_command("sendf:/tmp/a.txt:127.0.0.1:9000").unwrap();
    let (path, ip, port) = match cmd {
        Command::SendFile { path, ip, port } => (path, ip, port),
        _ => panic!("not a send-file command"),
    };
    assert_eq!(path, "/tmp/a.txt");
    let mut reg: Registry<u32> = Registry::new();
    reg.register(Connection { handle: 7, ip: "127.0.0.1".to_string(), port: 9000 });
    let at = reg.position_of(&ip, port).unwrap();
    assert_eq!(reg.connections()[at].handle, 7);
    let contents = b"first line\nsecond line\n".to_vec();
    let frame = file_frame(&path, &contents).unwrap();
    let start = b">>>FILE_START>>>:txt\r\n";
    let end = b"<<<FILE_END<<<";
    assert!(frame.starts_with(start));
    assert!(frame.ends_with(end));
    assert_eq!(&frame[start.len()..frame.len() - end.len()], &contents[..]);
}

#[test]
fn peer_closed_at_once_is_raw_session_that_ends() {
    assert_eq!(classify(&[], &methods()), Classification::RawSession);
    let mut s = SessionHandler::new();
    let step = s.on_stop();
    assert!(!step.keep_reading);
    assert!(step.file.is_none());
    assert!(!step.log_chunk);
    assert!(!s.is_receiving_file());
}

#[test]
fn whole_frame_in_one_chunk_completes_file() {
    let mut s = SessionHandler::new();
    let step = s.on_data(b"note: >>>FILE_START>>>:txt\r\nbody<<<FILE_END<<<");
    assert!(step.log_chunk);
    assert!(step.keep_reading);
    let f = step.file.unwrap();
    assert_eq!(f.extension, b"txt".to_vec());
    assert_eq!(f.contents, b"body".to_vec());
    assert!(f.complete);
    assert!(!s.is_receiving_file());
}

#[test]
fn frame_across_chunks_is_reassembled() {
    let mut s = SessionHandler::new();
    let a = s.on_data(b">>>FILE_START>>>:bin\r\npart1-");
    assert!(a.file.is_none());
    assert!(s.is_receiving_file());
    let b = s.on_data(b"part2-");
    assert!(!b.log_chunk);
    assert!(b.file.is_none());
    let c = s.on_data(b"part3<<<FILE_END<<<trailing");
    let f = c.file.unwrap();
    assert_eq!(f.contents, b"part1-part2-part3".to_vec());
    assert_eq!(f.extension, b"bin".to_vec());
    assert!(f.complete);
    assert!(!s.is_receiving_file());
    let d = s.on_data(b"plain text");
    assert!(d.log_chunk);
    assert!(d.file.is_none());
}

#[test]
fn stop_during_transfer_hands_out_partial_file() {
    let mut s = SessionHandler::new();
    s.on_data(b">>>FILE_START>>>:log\r\nabc");
    let step = s.on_stop();
    assert!(step.keep_reading);
    let f = step.file.unwrap();
    assert_eq!(f.contents, b"abc".to_vec());
    assert!(!f.complete);
    assert!(!s.is_receiving_file());
    let end = s.on_stop();
    assert!(!end.keep_reading);
}

#[test]
fn text_chunk_is_logged_only() {
    let mut s = SessionHandler::new();
    let step = s.on_data(b"hello");
    assert!(step.log_chunk);
    assert!(step.keep_reading);
    assert!(step.file.is_none());
}

#[test]
fn padding_is_stripped() {
    assert_eq!(strip_padding(&[0, 0, 104, 105, 0, 0]), b"hi".to_vec());
    assert_eq!(strip_padding(&[0, 0]), Vec::<u8>::new());
    assert_eq!(strip_padding(&[1, 0, 2]), vec![1, 0, 2]);
}

#[test]
fn log_line_format() {
    assert_eq!(
        log_line("2024-01-02 03:04:05", "10.0.0.1", 4000, 5, "hello"),
        "[2024-01-02 03:04:05] -- [10.0.0.1:4000] -- [5 bytes]: hello\n"
    );
    let e = session_log_entry("10.0.0.1", 80, &[104, 105, 0, 0]);
    assert!(e.ends_with("] -- [10.0.0.1:80] -- [4 bytes]: hi\n"));
}

#[test]
fn received_file_name_format() {
    assert_eq!(received_file_name("2024-01-02 03:04:05", "txt"), "2024-01-02-03-04-05-recv.txt");
    assert!(name_for_received_file(b"png").ends_with("-recv.png"));
}

#[test]
fn timeout_aborts_transfer_but_session_goes_on() {
    let mut s = SessionHandler::new();
    let idle = s.on_timeout();
    assert!(idle.keep_reading);
    assert!(idle.file.is_none());
    s.on_data(b">>>FILE_START>>>:txt\r\nhalf");
    let cut = s.on_timeout();
    assert!(cut.keep_reading);
    let f = cut.file.unwrap();
    assert_eq!(f.contents, b"half".to_vec());
    assert!(!f.complete);
    assert!(!s.is_receiving_file());
}

#[test]
fn invalid_utf8_is_replaced_in_log_and_sniffing() {
    let e = session_log_entry("1.1.1.1", 1, &[0xff, b'a']);
    assert!(e.ends_with("[2 bytes]: \u{FFFD}a\n"));
    assert_eq!(classify(&[0xff, b' ', b'/', b'\r', b'\n'], &methods()), Classification::RawSession);
    assert!(name_for_received_file(&[0xff]).ends_with("-recv.\u{FFFD}"));
}
