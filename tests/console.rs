use multithreaded_tcp_http::command::{parse_command, read_command, parse_port, Command, CommandError};
use multithreaded_tcp_http::console::{apply_command, handle_line, ConsoleAction};
use multithreaded_tcp_http::registry::{Connection, Registry};
use std::sync::mpsc;

fn conn(h: u32, ip: &str, port: u16) -> Connection<u32> {
    Connection { handle: h, ip: ip.to_string(), port }
}

fn handles(r: &Registry<u32>) -> Vec<u32> {
    r.connections().iter().map(|c| c.handle).collect()
}

#[test]
fn parse_each_command() {
    assert_eq!(parse_command("exit:"), Ok(Command::Exit));
    assert_eq!(parse_command("conns:"), Ok(Command::ListConnections));
    assert_eq!(parse_command("dc:127.0.0.1:9999"), Ok(Command::Disconnect { ip: "127.0.0.1".to_string(), port: 9999 }));
    assert_eq!(parse_command("conn:127.0.0.1:46999"), Ok(Command::ConnectOutbound { ip: "127.0.0.1".to_string(), port: 46999 }));
    assert_eq!(
        parse_command("sendf:/home/u/README.md:127.0.0.1:47074"),
        Ok(Command::SendFile { path: "/home/u/README.md".to_string(), ip: "127.0.0.1".to_string(), port: 47074 })
    );
    assert_eq!(parse_command("hello all"), Ok(Command::Broadcast("hello all".to_string())));
    assert_eq!(parse_command("exit: now"), Ok(Command::Broadcast("exit: now".to_string())));
}

#[test]
fn parse_command_errors() {
    assert_eq!(parse_command(""), Err(CommandError::EmptyLine));
    assert_eq!(parse_command("dc:127.0.0.1"), Err(CommandError::MissingAddress));
    assert_eq!(parse_command("dc:127.0.0.1:port"), Err(CommandError::BadPort));
    assert_eq!(parse_command("dc:127.0.0.1:70000"), Err(CommandError::BadPort));
    assert_eq!(parse_command("conn:127.0.0.1"), Err(CommandError::MissingAddress));
    assert_eq!(parse_command("conn::80"), Err(CommandError::MissingAddress));
    assert_eq!(parse_command("conn:1.2.3.4:80:9"), Err(CommandError::BadPort));
    assert_eq!(parse_command("sendf:/a:1.2.3.4"), Err(CommandError::MissingAddress));
}

#[test]
fn read_command_trims() {
    assert_eq!(read_command("  exit:\n"), Ok(Command::Exit));
    assert_eq!(read_command(" \n"), Err(CommandError::EmptyLine));
}

#[test]
fn port_numbers() {
    assert_eq!(parse_port("0"), Some(0));
    assert_eq!(parse_port("+80"), Some(80));
    assert_eq!(parse_port("65535"), Some(65535));
    assert_eq!(parse_port("65536"), None);
    assert_eq!(parse_port(""), None);
    assert_eq!(parse_port("-1"), None);
    assert_eq!(parse_port(" 80"), None);
}

#[test]
fn disconnect_without_match_leaves_registry_unchanged() {
    let mut r: Registry<u32> = Registry::new();
    r.register(conn(1, "10.0.0.1", 5000));
    r.register(conn(2, "10.0.0.2", 5000));
    assert!(r.disconnect("10.0.0.3", 5000).is_none());
    assert!(r.disconnect("10.0.0.1", 5001).is_none());
    assert_eq!(handles(&r), vec![1, 2]);
    let mut empty: Registry<u32> = Registry::new();
    assert!(empty.disconnect("10.0.0.1", 1).is_none());
    assert_eq!(empty.len(), 0);
}

#[test]
fn disconnect_removes_first_match_at_any_index() {
    let mut r: Registry<u32> = Registry::new();
    r.register(conn(1, "10.0.0.1", 5000));
    r.register(conn(2, "10.0.0.2", 5000));
    r.register(conn(3, "10.0.0.1", 5000));
    let c = r.disconnect("10.0.0.1", 5000).unwrap();
    assert_eq!(c.handle, 1);
    assert_eq!(handles(&r), vec![2, 3]);
    assert_eq!(r.position_of("10.0.0.1", 5000), Some(1));
}

#[test]
fn broadcast_evicts_failed_and_counts_delivered() {
    let mut r: Registry<u32> = Registry::new();
    for h in 0..5u32 {
        r.register(conn(h, "10.0.0.9", 6000 + h as u16));
    }
    let delivered = vec![true, false, true, false, true];
    assert_eq!(r.evict_failed(&delivered), 3);
    assert_eq!(handles(&r), vec![0, 2, 4]);
    assert_eq!(r.evict_failed(&vec![true, true, true]), 3);
    assert_eq!(r.evict_failed(&vec![false, false, false]), 0);
    assert_eq!(r.len(), 0);
}

#[test]
fn sweep_removes_dead_from_highest_index() {
    let mut r: Registry<u32> = Registry::new();
    for h in 0..4u32 {
        r.register(conn(h, "10.0.0.9", 7000));
    }
    let removed = r.sweep(&vec![false, true, false, true]);
    assert_eq!(removed, vec![0, 2]);
    assert_eq!(handles(&r), vec![1, 3]);
}

#[test]
fn two_concurrent_handoffs_are_both_registered() {
    let (tx, rx) = mpsc::channel::<Connection<u32>>();
    let mut r: Registry<u32> = Registry::new();
    r.register(conn(0, "10.0.0.1", 1));
    let before = r.len();
    let first = tx.clone();
    let second = tx.clone();
    second.send(conn(2, "10.0.0.2", 102)).unwrap();
    first.send(conn(1, "10.0.0.2", 101)).unwrap();
    let arrivals: Vec<Connection<u32>> = rx.try_iter().collect();
    r.drain_handoffs(arrivals);
    assert_eq!(r.len(), before + 2);
    let mut got = handles(&r);
    got.sort();
    assert_eq!(got, vec![0, 1, 2]);
}

#[test]
fn exit_takes_every_connection() {
    let mut r: Registry<u32> = Registry::new();
    r.register(conn(1, "a", 1));
    r.register(conn(2, "b", 2));
    let all = r.take_all();
    assert_eq!(all.iter().map(|c| c.handle).collect::<Vec<u32>>(), vec![1, 2]);
    assert_eq!(r.len(), 0);
}

fn three() -> Registry<u32> {
    let mut r: Registry<u32> = Registry::new();
    r.register(conn(1, "10.0.0.1", 5000));
    r.register(conn(2, "10.0.0.2", 5000));
    r.register(conn(3, "10.0.0.3", 5000));
    r
}

#[test]
fn console_dc_without_match_changes_nothing() {
    let mut r = three();
    match handle_line(&mut r, "dc:10.0.0.9:5000\n") {
        ConsoleAction::NoSuchPeer { ip, port } => {
            assert_eq!(ip, "10.0.0.9");
            assert_eq!(port, 5000);
        }
        _ => panic!("expected a miss"),
    }
    assert_eq!(handles(&r), vec![1, 2, 3]);
}

#[test]
fn console_dc_takes_out_match_at_index_zero() {
    let mut r = three();
    match handle_line(&mut r, "dc:10.0.0.1:5000") {
        ConsoleAction::Shut(c) => assert_eq!(c.handle, 1),
        _ => panic!("expected a disconnect"),
    }
    assert_eq!(handles(&r), vec![2, 3]);
}

#[test]
fn console_other_commands() {
    let mut r = three();
    assert!(matches!(handle_line(&mut r, "conns:"), ConsoleAction::List));
    assert!(matches!(handle_line(&mut r, "conn:10.0.0.7:80"), ConsoleAction::Connect { port: 80, .. }));
    match handle_line(&mut r, "sendf:/tmp/a.txt:10.0.0.2:5000") {
        ConsoleAction::SendFile { path, index } => {
            assert_eq!(path, "/tmp/a.txt");
            assert_eq!(index, 1);
        }
        _ => panic!("expected a send"),
    }
    assert!(matches!(handle_line(&mut r, "sendf:/tmp/a.txt:10.0.0.2:5001"), ConsoleAction::NoSuchPeer { .. }));
    match handle_line(&mut r, "hello") {
        ConsoleAction::Broadcast(t) => assert_eq!(t, "hello"),
        _ => panic!("expected a broadcast"),
    }
    assert!(matches!(handle_line(&mut r, ""), ConsoleAction::Ignored(CommandError::EmptyLine)));
    assert!(matches!(handle_line(&mut r, "dc:x"), ConsoleAction::Ignored(CommandError::MissingAddress)));
    assert_eq!(r.len(), 3);
    match handle_line(&mut r, "exit:") {
        ConsoleAction::Exit(all) => assert_eq!(all.len(), 3),
        _ => panic!("expected exit"),
    }
    assert_eq!(r.len(), 0);
    let mut empty: Registry<u32> = Registry::new();
    assert!(matches!(apply_command(&mut empty, Command::Broadcast("x".to_string())), ConsoleAction::NoClients));
}

#[test]
fn read_command_trims_unicode_white_space() {
    assert_eq!(read_command("\u{2028}conns:\u{205f}"), Ok(Command::ListConnections));
    assert_eq!(read_command("\u{3000}"), Err(CommandError::EmptyLine));
}
