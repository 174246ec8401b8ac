use mpdrs::codec::{arg_is_bare, decode, encode};
use mpdrs::command::{decimal, Command};
use mpdrs::connection::{Connection, Event, State};
use mpdrs::error::MpdError;
use mpdrs::playlists::{MpdPlaylist, MpdPlaylists};
use mpdrs::record::{Outcome, ReplyCollector};
use mpdrs::response::{parse_greeting, parse_reply, Reply};
use mpdrs::subsystem::Subsystem;
use mpdrs::timestamp::parse_iso_seconds;

fn ready() -> Connection {
    let mut c = Connection::new();
    c.handshake("OK MPD 0.23.5").unwrap();
    c
}

fn changed_subsystems(ev: Event) -> Vec<Subsystem> {
    match ev {
        Event::Idle(names) => names
            .iter()
            .map(|n| Subsystem::from_name(n.as_str()).unwrap())
            .collect(),
        other => panic!("not the end of an idle wait: {:?}", other),
    }
}

#[test]
fn idle() {
    let mut mpd = ready();
    mpd.idle(&vec![]).unwrap();
    assert_eq!(mpd.take_output(), "idle\n");
    assert_eq!(mpd.state(), State::IdleBlocked);
    let ev = mpd.receive_line("changed: options").unwrap();
    assert!(matches!(ev, Event::Changed(ref s) if s == "options"));
    let sys = changed_subsystems(mpd.receive_line("OK").unwrap());
    assert_eq!(&*sys, &[Subsystem::Options]);
    assert_eq!(mpd.state(), State::Ready);
}

#[test]
fn encode_bare_and_quoted() {
    assert_eq!(encode("play"), "play");
    assert_eq!(encode("a b"), "\"a b\"");
    assert_eq!(encode(""), "\"\"");
    assert_eq!(encode("say \"hi\""), "\"say \\\"hi\\\"\"");
    assert_eq!(encode("c:\\dir"), "\"c:\\\\dir\"");
    assert!(arg_is_bare("x.mp3"));
    assert!(!arg_is_bare("tab\there"));
    assert!(!arg_is_bare(""));
}

#[test]
fn decode_round_trip() {
    for s in ["", "plain", "two words", "q\"uote", "back\\slash", "\\\"", "nul\u{0}byte", "\"\""] {
        assert_eq!(decode(&encode(s)), s);
    }
    assert_eq!(decode("\"a\\\"b\""), "a\"b");
    assert_eq!(decode("bare"), "bare");
}

#[test]
fn parse_reply_lines() {
    assert!(matches!(parse_reply("OK"), Some(Reply::Success)));
    assert!(matches!(parse_reply("list_OK"), Some(Reply::ListOk)));
    match parse_reply("file: music/a: b.mp3") {
        Some(Reply::Pair(k, v)) => {
            assert_eq!(k, "file");
            assert_eq!(v, "music/a: b.mp3");
        },
        other => panic!("{:?}", other),
    }
    match parse_reply("ACK [50@1] {play} No such song") {
        Some(Reply::Ack(e)) => {
            assert_eq!(e.code, 50);
            assert_eq!(e.index, 1);
            assert_eq!(e.command, "play");
            assert_eq!(e.message, "No such song");
        },
        other => panic!("{:?}", other),
    }
    match parse_reply("ACK [5@0] {} unknown command \"foo\"") {
        Some(Reply::Ack(e)) => {
            assert_eq!(e.code, 5);
            assert_eq!(e.command, "");
            assert_eq!(e.message, "unknown command \"foo\"");
        },
        other => panic!("{:?}", other),
    }
}

#[test]
fn parse_reply_malformed() {
    assert!(parse_reply("BADLINE").is_none());
    assert!(parse_reply("key:value").is_none());
    assert!(parse_reply("ACK [x@0] {play} bad code").is_none());
    assert!(parse_reply("ACK [4294967296@0] {play} too large").is_none());
    assert!(parse_reply("ACK [5@99999999999] {play} index too large").is_none());
    assert!(parse_reply("ACK [@0] {play} no code").is_none());
    assert!(parse_reply("ACK [1@0] {play}").is_none());
    assert!(parse_reply("").is_none());
}

#[test]
fn value_may_start_with_colon() {
    match parse_reply("BAD: :line") {
        Some(Reply::Pair(k, v)) => {
            assert_eq!(k, "BAD");
            assert_eq!(v, ":line");
        },
        other => panic!("{:?}", other),
    }
}

#[test]
fn greeting() {
    assert_eq!(parse_greeting("OK MPD 0.23.5").unwrap(), "0.23.5");
    assert!(parse_greeting("OK MPD ").is_none());
    assert!(parse_greeting("OK").is_none());
    let c = ready();
    assert_eq!(c.version(), "0.23.5");
    assert_eq!(c.state(), State::Ready);
}

#[test]
fn handshake_refused() {
    let mut c = Connection::new();
    assert!(matches!(c.send(&Command::new("status")), Err(MpdError::State)));
    assert!(matches!(c.handshake("HELLO"), Err(MpdError::Handshake)));
    assert_eq!(c.state(), State::Closed);
    assert!(matches!(c.send(&Command::new("status")), Err(MpdError::State)));
    assert_eq!(c.take_output(), "");
}

#[test]
fn second_command_refused() {
    let mut c = ready();
    c.send(&Command::new("status")).unwrap();
    assert!(matches!(c.send(&Command::new("stats")), Err(MpdError::State)));
    assert!(matches!(c.idle(&vec![]), Err(MpdError::State)));
    assert_eq!(c.take_output(), "status\n");
}

#[test]
fn replies_in_order() {
    let mut c = ready();
    c.send(&Command::new("status")).unwrap();
    assert!(matches!(c.receive_line("volume: 50").unwrap(), Event::Pair(ref k, ref v) if k == "volume" && v == "50"));
    assert!(matches!(c.receive_line("OK").unwrap(), Event::Done));
    c.send(&Command::new("play").arg_num(7)).unwrap();
    match c.receive_line("ACK [2@0] {play} Bad song index").unwrap() {
        Event::Failed(e) => assert_eq!(e.command, "play"),
        other => panic!("{:?}", other),
    }
    assert_eq!(c.state(), State::Ready);
    assert_eq!(c.take_output(), "status\nplay 7\n");
    assert!(matches!(c.receive_line("OK"), Err(MpdError::State)));
}

#[test]
fn idle_then_noidle() {
    let mut c = ready();
    c.idle(&vec![]).unwrap();
    c.noidle().unwrap();
    c.noidle().unwrap();
    assert_eq!(c.state(), State::Cancelling);
    let sys = changed_subsystems(c.receive_line("OK").unwrap());
    assert!(sys.is_empty());
    assert_eq!(c.state(), State::Ready);
    assert_eq!(c.take_output(), "idle\nnoidle\n");
    assert!(matches!(c.noidle(), Err(MpdError::State)));
}

#[test]
fn noidle_keeps_pending_change() {
    let mut c = ready();
    c.idle(&vec!["player".to_string(), "mixer".to_string()]).unwrap();
    c.receive_line("changed: player").unwrap();
    c.noidle().unwrap();
    c.receive_line("changed: player").unwrap();
    c.receive_line("changed: mixer").unwrap();
    let sys = changed_subsystems(c.receive_line("OK").unwrap());
    assert_eq!(sys, vec![Subsystem::Player, Subsystem::Mixer]);
    assert_eq!(c.take_output(), "idle player mixer\nnoidle\n");
}

#[test]
fn idle_refuses_other_keys() {
    let mut c = ready();
    c.idle(&vec![]).unwrap();
    assert!(matches!(c.send(&Command::new("status")), Err(MpdError::State)));
    assert!(matches!(c.receive_line("volume: 3"), Err(MpdError::Protocol)));
    assert_eq!(c.state(), State::Closed);
}

#[test]
fn list_stops_at_failure() {
    let mut c = ready();
    let cmds = vec![
        Command::new("add").arg("a.mp3"),
        Command::new("add").arg("missing song.mp3"),
        Command::new("play"),
    ];
    c.send_list(&cmds).unwrap();
    assert_eq!(
        c.take_output(),
        "command_list_ok_begin\nadd a.mp3\nadd \"missing song.mp3\"\nplay\ncommand_list_end\n"
    );
    let mut results: Vec<Result<(), MpdError>> = Vec::new();
    loop {
        match c.receive_line(if results.is_empty() { "list_OK" } else { "ACK [50@1] {add} No such directory" }) {
            Ok(Event::MemberOk) => results.push(Ok(())),
            Ok(Event::Failed(e)) => {
                results.push(Err(MpdError::Server(e)));
                break;
            },
            Ok(Event::Done) => break,
            other => panic!("{:?}", other),
        }
    }
    assert_eq!(results.len(), 2);
    assert!(results[0].is_ok());
    assert!(matches!(results[1], Err(MpdError::Server(ref e)) if e.index == 1 && e.code == 50));
    assert_eq!(c.state(), State::Ready);
    assert!(matches!(c.receive_line("list_OK"), Err(MpdError::State)));
}

#[test]
fn list_ok_outside_list_is_protocol_error() {
    let mut c = ready();
    c.send(&Command::new("status")).unwrap();
    assert!(matches!(c.receive_line("list_OK"), Err(MpdError::Protocol)));
    assert_eq!(c.state(), State::Closed);
}

#[test]
fn malformed_line_poisons() {
    let mut c = ready();
    c.send(&Command::new("status")).unwrap();
    c.take_output();
    assert!(matches!(c.receive_line("BADLINE"), Err(MpdError::Protocol)));
    assert_eq!(c.state(), State::Closed);
    assert!(matches!(c.send(&Command::new("status")), Err(MpdError::State)));
    assert!(matches!(c.receive_line("OK"), Err(MpdError::State)));
    assert!(matches!(c.noidle(), Err(MpdError::State)));
    assert_eq!(c.take_output(), "");
}

#[test]
fn close_is_idempotent() {
    let mut c = ready();
    c.close();
    c.close();
    assert_eq!(c.state(), State::Closed);
    assert!(matches!(c.send(&Command::new("status")), Err(MpdError::State)));
    assert_eq!(c.take_output(), "");
}

#[test]
fn authenticate_quotes_password() {
    let mut c = ready();
    c.authenticate("my \"secret\"").unwrap();
    assert_eq!(c.take_output(), "password \"my \\\"secret\\\"\"\n");
}

#[test]
fn decimal_text() {
    assert_eq!(decimal(0), "0");
    assert_eq!(decimal(42), "42");
    assert_eq!(decimal(u64::MAX), "18446744073709551615");
}

#[test]
fn command_line_text() {
    let cmd = Command::new("find").arg("artist").arg("The Band").arg_num(3);
    assert_eq!(cmd.to_line(), "find artist \"The Band\" 3");
}

#[test]
fn subsystem_names() {
    assert_eq!(Subsystem::from_name("stored_playlist"), Some(Subsystem::StoredPlaylist));
    assert_eq!(Subsystem::from_name("nope"), None);
    assert_eq!(Subsystem::Options.name(), "options");
}

#[test]
fn playlists_from_pairs() {
    let mut c = ready();
    let mut pls = MpdPlaylists::from_conn(&mut c).unwrap();
    assert_eq!(c.take_output(), "listplaylists\n");
    let lines = [
        "playlist: rock",
        "Last-Modified: 2024-01-02T03:04:05Z",
        "playlist: jazz",
        "other: x",
        "playlist: odd",
        "Last-Modified: yesterday",
        "OK",
    ];
    for l in lines.iter() {
        match c.receive_line(l).unwrap() {
            Event::Pair(k, v) => pls.accept(&k, &v),
            Event::Done => break,
            other => panic!("{:?}", other),
        }
    }
    let items = pls.items();
    assert_eq!(items.len(), 3);
    assert_eq!(items[0].path(), "rock");
    assert_eq!(items[0].last_mod(), 1704164645);
    assert_eq!(items[1].path(), "jazz");
    assert_eq!(items[1].last_mod(), 0);
    assert_eq!(items[2].last_mod(), 0);
}

#[test]
fn last_modified_before_any_playlist_is_ignored() {
    let mut pls = MpdPlaylists::new();
    pls.accept("Last-Modified", "2024-01-02T03:04:05Z");
    assert!(pls.items().is_empty());
}

#[test]
fn playlist_commands() {
    let mut c = ready();
    let mut pl = MpdPlaylist::new("My List", 0);
    let run = |c: &mut Connection| {
        c.receive_line("OK").unwrap();
        c.take_output()
    };
    pl.push(&mut c, "a b.mp3").unwrap();
    assert_eq!(run(&mut c), "playlistadd \"My List\" \"a b.mp3\"\n");
    pl.clear(&mut c).unwrap();
    assert_eq!(run(&mut c), "playlistclear \"My List\"\n");
    pl.remove(&mut c, 4).unwrap();
    assert_eq!(run(&mut c), "playlistdelete \"My List\" 4\n");
    pl.move_pos(&mut c, 1, 12).unwrap();
    assert_eq!(run(&mut c), "playlistmove \"My List\" 1 12\n");
    pl.rename(&mut c, "new").unwrap();
    assert_eq!(run(&mut c), "rename \"My List\" new\n");
    pl.save(&mut c).unwrap();
    assert_eq!(run(&mut c), "save \"My List\"\n");
    pl.load(&mut c).unwrap();
    assert_eq!(run(&mut c), "load \"My List\"\n");
    pl.iter(&mut c).unwrap();
    assert_eq!(run(&mut c), "listplaylist \"My List\"\n");
    assert!(matches!(pl.load(&mut c), Ok(())));
    assert!(matches!(pl.clone().delete(&mut c), Err(MpdError::State)));
    assert_eq!(pl.path(), "My List");
}

fn feed(c: &mut Connection, collector: &mut ReplyCollector, lines: &[&str]) {
    for l in lines {
        if collector.collect(c.receive_line(l).unwrap()).unwrap() {
            break;
        }
    }
}

#[test]
fn batch_of_three_second_fails() {
    let mut c = ready();
    let cmds = vec![Command::new("status"), Command::new("play").arg_num(99), Command::new("stats")];
    c.send_list(&cmds).unwrap();
    let mut collector = ReplyCollector::new(true);
    feed(&mut c, &mut collector, &["state: stop", "list_OK", "ACK [50@1] {play} No such song"]);
    assert!(collector.is_done());
    let records = collector.into_records();
    assert_eq!(records.len(), 2);
    assert!(matches!(records[0].outcome, Outcome::Success));
    assert_eq!(records[0].pairs, vec![("state".to_string(), "stop".to_string())]);
    assert!(matches!(records[1].outcome, Outcome::Failed(ref e) if e.index == 1 && e.code == 50));
    assert!(records[1].pairs.is_empty());
    assert_eq!(c.state(), State::Ready);
}

#[test]
fn batch_all_succeed() {
    let mut c = ready();
    c.send_list(&vec![Command::new("clear"), Command::new("play")]).unwrap();
    let mut collector = ReplyCollector::new(true);
    feed(&mut c, &mut collector, &["list_OK", "list_OK", "OK"]);
    let records = collector.into_records();
    assert_eq!(records.len(), 2);
    assert!(records.iter().all(|r| matches!(r.outcome, Outcome::Success)));
}

#[test]
fn single_reply_record() {
    let mut c = ready();
    c.send(&Command::new("status")).unwrap();
    let mut collector = ReplyCollector::new(false);
    feed(&mut c, &mut collector, &["volume: 10", "repeat: 0", "volume: 20", "OK"]);
    let records = collector.into_records();
    assert_eq!(records.len(), 1);
    let keys: Vec<&str> = records[0].pairs.iter().map(|p| p.0.as_str()).collect();
    assert_eq!(keys, vec!["volume", "repeat", "volume"]);
    assert_eq!(records[0].pairs[2].1, "20");
    assert!(matches!(records[0].outcome, Outcome::Success));
}

#[test]
fn empty_reply_has_one_record() {
    let mut c = ready();
    c.send(&Command::new("ping")).unwrap();
    let mut collector = ReplyCollector::new(false);
    feed(&mut c, &mut collector, &["OK"]);
    let records = collector.into_records();
    assert_eq!(records.len(), 1);
    assert!(records[0].pairs.is_empty());
}

#[test]
fn boolean_arguments() {
    assert_eq!(Command::new("consume").arg_bool(true).to_line(), "consume 1");
    assert_eq!(Command::new("consume").arg_bool(false).to_line(), "consume 0");
}

#[test]
fn ack_numbers_up_to_u32_max() {
    match parse_reply("ACK [4000000000@4294967295] {load} big") {
        Some(Reply::Ack(e)) => {
            assert_eq!(e.code, 4000000000);
            assert_eq!(e.index, 4294967295);
            assert_eq!(e.command, "load");
            assert_eq!(e.message, "big");
        },
        other => panic!("{:?}", other),
    }
    match parse_reply("ACK [0000000000050@01] {x} y") {
        Some(Reply::Ack(e)) => {
            assert_eq!(e.code, 50);
            assert_eq!(e.index, 1);
        },
        other => panic!("{:?}", other),
    }
}

#[test]
fn playlists_refused_while_reply_undrained() {
    let mut c = ready();
    let _first = MpdPlaylists::from_conn(&mut c).unwrap();
    c.receive_line("playlist: rock").unwrap();
    assert!(matches!(MpdPlaylists::from_conn(&mut c), Err(MpdError::State)));
    assert_eq!(c.take_output(), "listplaylists\n");
}

#[test]
fn commands_answered_in_order() {
    let mut c = ready();
    let mut pl = MpdPlaylist::new("mix", 0);
    let mut results = Vec::new();
    let replies = ["OK", "ACK [50@0] {playlistadd} No such song", "OK"];
    for (i, reply) in replies.iter().enumerate() {
        match i {
            0 => pl.clear(&mut c).unwrap(),
            1 => pl.push(&mut c, "gone.mp3").unwrap(),
            _ => pl.save(&mut c).unwrap(),
        }
        let mut collector = ReplyCollector::new(false);
        feed(&mut c, &mut collector, &[reply]);
        results.push(collector.into_records().pop().unwrap().outcome);
    }
    assert!(matches!(results[0], Outcome::Success));
    assert!(matches!(results[1], Outcome::Failed(ref e) if e.command == "playlistadd"));
    assert!(matches!(results[2], Outcome::Success));
    assert_eq!(c.state(), State::Ready);
    assert_eq!(c.take_output(), "playlistclear mix\nplaylistadd mix gone.mp3\nsave mix\n");
}

#[test]
fn iso_timestamps() {
    assert_eq!(parse_iso_seconds("1970-01-01T00:00:00Z"), Some(0));
    assert_eq!(parse_iso_seconds("1969-12-31T23:59:59Z"), Some(-1));
    assert_eq!(parse_iso_seconds("2000-02-29T00:00:00Z"), Some(951782400));
    assert_eq!(parse_iso_seconds("2024-01-02T03:04:05Z"), Some(1704164645));
    assert_eq!(parse_iso_seconds("2038-01-19T03:14:08Z"), Some(2147483648));
    assert_eq!(parse_iso_seconds("2100-03-01T00:00:00Z"), Some(4107542400));
    assert_eq!(parse_iso_seconds("0000-01-01T00:00:00Z"), Some(-62167219200));
    assert_eq!(parse_iso_seconds("2023-02-30T00:00:00Z"), None);
    assert_eq!(parse_iso_seconds("2100-02-29T00:00:00Z"), None);
    assert_eq!(parse_iso_seconds("2023-01-01T00:00:60Z"), None);
    assert_eq!(parse_iso_seconds("2023-13-01T00:00:00Z"), None);
    assert_eq!(parse_iso_seconds("2023-01-01 00:00:00Z"), None);
    assert_eq!(parse_iso_seconds("2023-01-01T00:00:00"), None);
    assert_eq!(parse_iso_seconds("yesterday"), None);
}

#[test]
fn playlist_batch_stops_at_failing_remove() {
    let mut c = ready();
    let pl = MpdPlaylist::new("mix", 0);
    let cmds = vec![pl.clear_command(), pl.remove_command(99), pl.save_command()];
    c.send_list(&cmds).unwrap();
    assert_eq!(
        c.take_output(),
        "command_list_ok_begin\nplaylistclear mix\nplaylistdelete mix 99\nsave mix\ncommand_list_end\n"
    );
    let mut collector = ReplyCollector::new(true);
    feed(&mut c, &mut collector, &["list_OK", "ACK [2@1] {playlistdelete} Bad song index"]);
    let records = collector.into_records();
    assert_eq!(records.len(), 2);
    assert!(matches!(records[0].outcome, Outcome::Success));
    match &records[1].outcome {
        Outcome::Failed(e) => {
            assert_eq!(e.code, 2);
            assert_eq!(e.index, 1);
            assert_eq!(e.command, "playlistdelete");
            assert_eq!(e.message, "Bad song index");
        },
        other => panic!("{:?}", other),
    }
    assert_eq!(c.state(), State::Ready);
}

#[test]
fn playlist_command_builders() {
    let pl = MpdPlaylist::new("My List", 0);
    assert_eq!(pl.iter_command().to_line(), "listplaylist \"My List\"");
    assert_eq!(pl.push_command("a.mp3").to_line(), "playlistadd \"My List\" a.mp3");
    assert_eq!(pl.move_command(3, 0).to_line(), "playlistmove \"My List\" 3 0");
    assert_eq!(pl.rename_command("x y").to_line(), "rename \"My List\" \"x y\"");
    assert_eq!(pl.delete_command().to_line(), "rm \"My List\"");
    assert_eq!(pl.load_command().to_line(), "load \"My List\"");
}

#[test]
fn batch_ack_with_wrong_index_is_protocol_error() {
    let mut c = ready();
    c.send_list(&vec![Command::new("clear"), Command::new("play")]).unwrap();
    let mut collector = ReplyCollector::new(true);
    assert!(matches!(collector.collect(c.receive_line("list_OK").unwrap()), Ok(false)));
    let ev = c.receive_line("ACK [2@0] {play} Bad song index").unwrap();
    assert!(matches!(collector.collect(ev), Err(MpdError::Protocol)));
    assert!(collector.is_done());
    assert_eq!(collector.into_records().len(), 1);
}
