use wiki_rt_monitor::component_b::parse_zero_copy;
use wiki_rt_monitor::component_d::leaderboard::{known_domain, known_domain_slot, DOMAIN_SLOTS};
use wiki_rt_monitor::component_e::Watchdog;
use wiki_rt_monitor::ingestion::mock_stream::{
    draw_event, event_json, interval_us, MockDraw, MockStream, BOT_USERS, HUMAN_USERS, MOCK_SEED,
};
use wiki_rt_monitor::ingestion::sse_client::{
    extract_data_line, find_double_newline, retry_after_drop, SseAction, SseClient, SseDecoder,
    SseEvent,
};
use wiki_rt_monitor::ingestion::StreamSource;
use wiki_rt_monitor::random::seed_of_draw;
use wiki_rt_monitor::types::{Priority, WikiChange};

#[test]
fn double_newlines() {
    assert_eq!(find_double_newline(b""), None);
    assert_eq!(find_double_newline(b"\n"), None);
    assert_eq!(find_double_newline(b"a\nb\n"), None);
    assert_eq!(find_double_newline(b"\n\n"), Some(0));
    assert_eq!(find_double_newline(b"ab\n\ncd\n\n"), Some(2));
}

#[test]
fn data_lines() {
    assert_eq!(extract_data_line(b"event: message\ndata: {\"a\":1}\n\n"), Some(&b"{\"a\":1}"[..]));
    assert_eq!(extract_data_line(b"data:{}\n"), Some(&b"{}"[..]));
    assert_eq!(extract_data_line(b"data: \ndata: [1]\ndata: {x"), Some(&b"{x"[..]));
    assert_eq!(extract_data_line(b"data:  {}\n"), None);
    assert_eq!(extract_data_line(b": keep-alive\n\n"), None);
    assert_eq!(extract_data_line(b"dat"), None);
    assert_eq!(extract_data_line(b""), None);
}

#[test]
fn decoding_does_not_depend_on_chunks() {
    let stream = b"event: message\ndata: {\"n\":1}\n\n: ping\n\nevent: message\ndata: {\"n\":2}\n\nevent: mes";
    let mut whole = SseDecoder::new();
    let expected = vec![b"{\"n\":1}".to_vec(), b"{\"n\":2}".to_vec()];
    assert_eq!(whole.feed(stream), expected);
    for size in 1..stream.len() {
        let mut decoder = SseDecoder::new();
        let mut got = Vec::new();
        for chunk in stream.chunks(size) {
            got.extend(decoder.feed(chunk));
        }
        assert_eq!(got, expected);
    }
    assert_eq!(whole.feed(b"sage\ndata: {}\n\n"), vec![b"{}".to_vec()]);
}

#[test]
fn client_connects_reads_and_stops() {
    let mut c = SseClient::new();
    assert_eq!(c.step(SseEvent::Ready, false, false).0, SseAction::Connect);
    assert_eq!(c.step(SseEvent::ConnectFailed, false, false).0, SseAction::Wait(3_000));
    assert_eq!(c.step(SseEvent::Connected, false, false).0, SseAction::Read);
    let (action, jsons) = c.step(SseEvent::Chunk(b"data: {}\n\ndata: {"), false, false);
    assert_eq!(action, SseAction::Read);
    assert_eq!(jsons, vec![b"{}".to_vec()]);
    assert_eq!(c.step(SseEvent::Ended, false, false).0, SseAction::Finish);
    assert_eq!(c.step(SseEvent::Failed, false, false).0, SseAction::Finish);
    c.step(SseEvent::Connected, false, false);
    assert!(c.step(SseEvent::Chunk(b"}\n\n"), false, false).1.is_empty());
    let (action, jsons) = c.step(SseEvent::Chunk(b"data: {}\n\n"), true, false);
    assert_eq!(action, SseAction::Finish);
    assert!(jsons.is_empty());
    assert_eq!(c.step(SseEvent::Ready, true, false).0, SseAction::Finish);
    assert_eq!(c.step(SseEvent::Ended, true, false).0, SseAction::Finish);
}

#[test]
fn caller_retries_after_a_drop() {
    assert_eq!(retry_after_drop(false), Some(2_000));
    assert_eq!(retry_after_drop(true), None);
}

#[test]
fn client_reconnects_when_asked() {
    let mut c = SseClient::new();
    assert_eq!(c.step(SseEvent::Quiet, false, false).0, SseAction::Read);
    assert_eq!(c.step(SseEvent::Quiet, false, true).0, SseAction::Connect);
    assert_eq!(c.step(SseEvent::Quiet, true, true).0, SseAction::Finish);
    let (action, jsons) = c.step(SseEvent::Chunk(b"data: {}\n\n"), false, true);
    assert_eq!(action, SseAction::Connect);
    assert_eq!(jsons.len(), 1);
}

#[test]
fn mock_event_text() {
    let draw = MockDraw { is_bot: true, domain: 1, user: 2, namespace: 14 };
    assert_eq!(
        event_json(&draw, 105, 1_715_000_000),
        r#"{"user":"PageMover_bot","bot":true,"server_name":"de.wikipedia.org","title":"Page_105","type":"edit","namespace":14,"timestamp":1715000000}"#
    );
    let draw = MockDraw { is_bot: false, domain: 9, user: 4, namespace: 0 };
    assert_eq!(
        event_json(&draw, 0, 0),
        r#"{"user":"Eve_Editor","bot":false,"server_name":"nl.wikipedia.org","title":"Page_0","type":"edit","namespace":0,"timestamp":0}"#
    );
}

#[test]
fn draws_vary_within_their_lists() {
    let mut bots = 0;
    let mut domains = [0u32; 10];
    let mut other_namespaces = 0;
    for seq in 0..2_000 {
        let d = draw_event(7, seq, true);
        assert!(d.is_wf());
        bots += d.is_bot as u32;
        domains[d.domain] += 1;
        other_namespaces += (d.namespace > 0) as u32;
    }
    assert!((1_500..1_700).contains(&bots));
    assert!((500..700).contains(&other_namespaces));
    assert!(domains.iter().all(|n| *n > 100));
    assert!((0..100).all(|seq| draw_event(7, seq, false).namespace == 0));
}

#[test]
fn draws_make_up_an_event() {
    let d = MockDraw::from_draws(true, 3, 2, Some(11));
    assert_eq!(d, MockDraw { is_bot: true, domain: 3, user: 2, namespace: 11 });
    let d = MockDraw::from_draws(false, 9, 4, None);
    assert_eq!(d, MockDraw { is_bot: false, domain: 9, user: 4, namespace: 0 });
}

#[test]
fn intervals() {
    assert_eq!(interval_us(2_000), 500);
    assert_eq!(interval_us(1), 1_000_000);
    assert_eq!(interval_us(0), 1_000_000);
    assert_eq!(interval_us(3_000_000), 0);
}

#[test]
fn silence_window_is_half_open_and_numbers_go_on() {
    let draw = MockDraw { is_bot: false, domain: 0, user: 0, namespace: 0 };
    let mut s = MockStream::new(Some((100, 200)), Some(1_000), 5_000);
    assert!(s.next_event(&draw, 1_099, 0).unwrap().contains("\"Page_0\""));
    assert!(s.next_event(&draw, 1_100, 0).is_none());
    assert!(s.next_event(&draw, 1_199, 0).is_none());
    assert!(s.next_event(&draw, 1_200, 0).unwrap().contains("\"Page_3\""));
    assert!(s.next_event(&draw, 0, 0).is_some());
    assert_eq!(s.seq(), 5);
    let mut s = MockStream::new(Some((100, 200)), None, 5_000);
    assert!(s.next_event(&draw, 5_099, 0).is_some());
    assert!(s.next_event(&draw, 5_150, 0).is_none());
}

#[test]
fn sources_differ() {
    assert_ne!(StreamSource::Live, StreamSource::Mock(1));
}

#[test]
fn seeded_mock_runs_agree() {
    let run = |secs: u64| {
        let mut stream = MockStream::new(None, None, 0);
        (0..200)
            .map(|_| stream.next_seeded_event(MOCK_SEED, true, 0, secs).unwrap())
            .collect::<Vec<String>>()
    };
    let first = run(100);
    assert_eq!(first, run(100));
    let later = run(5_000);
    for (i, (a, b)) in first.iter().zip(&later).enumerate() {
        let head = a.strip_suffix("100}").unwrap();
        assert_eq!(b.strip_suffix("5000}").unwrap(), head);
        assert!(head.contains(&format!("\"Page_{i}\"")));
    }
}

#[test]
fn seeds_make_different_runs() {
    let run = |seed: u64| (0..50).map(|seq| draw_event(seed, seq, true)).collect::<Vec<_>>();
    assert_eq!(run(1), run(1));
    assert_ne!(run(1), run(1_000_000));
    let mut s = MockStream::new(Some((0, 10)), None, 0);
    assert!(s.next_seeded_event(1, true, 5, 0).is_none());
    assert_eq!(s.next_seeded_event(1, true, 10, 3).unwrap(), event_json(&draw_event(1, 1, true), 1, 3));
}

#[test]
fn messages_are_heartbeats() {
    let mut c = SseClient::new();
    let mut w = Watchdog::new(0);
    assert_eq!(c.attend(SseEvent::Ready, false, 5, &mut w).0, SseAction::Connect);
    assert_eq!(c.attend(SseEvent::Connected, false, 6, &mut w).0, SseAction::Read);
    assert!(c.attend(SseEvent::Chunk(b"data: {}\n"), false, 7, &mut w).1.is_empty());
    assert_eq!(w.last_event_ms(), 0);
    assert_eq!(c.attend(SseEvent::Chunk(b"\ndata: {}\n\n"), false, 8, &mut w).1.len(), 2);
    assert_eq!(w.last_event_ms(), 8);
    assert_eq!(c.attend(SseEvent::Quiet, false, 9, &mut w).0, SseAction::Read);
    assert_eq!(w.last_event_ms(), 8);
    w.poll(20_000, None);
    assert!(w.reconnect_flag());
    assert_eq!(c.attend(SseEvent::Connected, false, 20_001, &mut w).0, SseAction::Read);
    assert!(w.reconnect_flag());
    assert_eq!(c.attend(SseEvent::Quiet, false, 20_002, &mut w).0, SseAction::Connect);
    assert!(!w.reconnect_flag());
    assert_eq!(c.attend(SseEvent::Ended, false, 20_003, &mut w).0, SseAction::Finish);
}

#[test]
fn mock_events_become_packets() {
    let bots = ["ClueBot_NG", "AntiVandal", "PageMover_bot", "RefBot"];
    let humans = ["Alice", "Bob_wiki", "Carol", "Dave42", "Eve_Editor"];
    assert_eq!((bots.len(), humans.len()), (BOT_USERS, HUMAN_USERS));
    let mut seq = 0;
    for is_bot in [false, true] {
        for domain in 0..DOMAIN_SLOTS {
            for user in 0..if is_bot { BOT_USERS } else { HUMAN_USERS } {
                let draw = MockDraw { is_bot, domain, user, namespace: (domain % 15) as u64 };
                let json = event_json(&draw, seq, 1_715_000_000);
                let value: serde_json::Value = serde_json::from_str(&json).unwrap();
                assert_eq!(value.as_object().unwrap().len(), 7);
                let change = WikiChange {
                    user: value["user"].as_str(),
                    bot: value["bot"].as_bool().unwrap(),
                    server_name: value["server_name"].as_str(),
                    title: value["title"].as_str(),
                    change_type: value["type"].as_str(),
                    timestamp: value["timestamp"].as_i64(),
                    namespace: value["namespace"].as_i64(),
                };
                assert_eq!(change.namespace, Some(draw.namespace as i64));
                let packet = parse_zero_copy(Some(change), 7).unwrap();
                assert_eq!(packet.server_name, known_domain(domain));
                assert_eq!(known_domain_slot(&packet.server_name), Some(domain));
                assert_eq!(packet.change_type, "edit");
                assert_eq!(packet.title, format!("Page_{seq}"));
                assert_eq!(packet.wiki_timestamp, 1_715_000_000);
                if is_bot {
                    assert_eq!(packet.priority, Priority::Low);
                    assert_eq!(packet.user, bots[user]);
                } else {
                    assert_eq!(packet.priority, Priority::High);
                    assert_eq!(packet.user, humans[user]);
                }
                seq += 1;
            }
        }
    }
}

#[test]
fn draws_have_seeds_of_their_own() {
    let mut seeds: Vec<u64> =
        (0..40).map(|n| seed_of_draw(u64::MAX - 7, n / 5, 5, n % 5)).collect();
    assert_eq!((seeds[0], seeds[7], seeds[8]), (u64::MAX - 7, u64::MAX, 0));
    seeds.sort();
    seeds.dedup();
    assert_eq!(seeds.len(), 40);
}
