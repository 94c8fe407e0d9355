use barista::conf::{Conf, Dst, Feed};
use barista::server::{Action, FeedMeta, Msg, Server, State};

fn conf_one_feed(ttl_ms: Option<u64>, output_interval_ms: u64) -> Conf {
    Conf {
        feeds: vec![Feed {
            name: "greet".to_string(),
            cmd: "echo hello; sleep 60".to_string(),
            ttl_ms,
            shell: None,
        }],
        dst: Some(Dst::StdOut),
        sep: "   ".to_string(),
        pad_left: " ".to_string(),
        pad_right: " ".to_string(),
        expiry_character: '_',
        output_interval_ms,
    }
}

fn conf_two_feeds(sep: &str) -> Conf {
    Conf {
        feeds: vec![
            Feed {
                name: "a".to_string(),
                cmd: "while :; do date; sleep 1; done".to_string(),
                ttl_ms: None,
                shell: None,
            },
            Feed {
                name: "b".to_string(),
                cmd: "while :; do date; sleep 1; done".to_string(),
                ttl_ms: None,
                shell: None,
            },
        ],
        dst: Some(Dst::StdOut),
        sep: sep.to_string(),
        pad_left: "".to_string(),
        pad_right: "".to_string(),
        expiry_character: '_',
        output_interval_ms: 1000,
    }
}

fn meta(pos: usize, name: &str, pid: u32) -> FeedMeta {
    FeedMeta {
        name: name.to_string(),
        dir: format!("/tmp/work/feeds/0{}-{}", pos, name),
        pid,
        last_output_ms: None,
    }
}

fn turn_on(server: &mut Server, metas: Vec<FeedMeta>) {
    let actions = server.handle(Msg::On);
    assert!(matches!(actions.as_slice(), [Action::SpawnFeeds { .. }]));
    let actions = server.feeds_started(metas, None);
    assert!(matches!(actions.last(), Some(Action::ReplyOnOk)));
}

// A new supervisor starts Off with the output timer armed once.
#[test]
fn new_server_arms_output_once() {
    let (server, actions) = Server::new(conf_one_feed(Some(200), 100), "/tmp/work".to_string());
    assert!(matches!(server.state, State::Off));
    assert!(server.feeds.is_empty());
    assert!(matches!(
        actions.as_slice(),
        [Action::ArmOutput { delay_ms: 100 }]
    ));
}

// A feed with a time-to-live gets its expiry timer armed at turn-on and
// re-armed on every input line; firing the expiry overwrites the slot
// with a run of the expiry character of the line's character count.
#[test]
fn ttl_expiry() {
    let (mut server, _) = Server::new(conf_one_feed(Some(200), 100), "/tmp/work".to_string());
    let actions = server.handle(Msg::On);
    match actions.as_slice() {
        [Action::SpawnFeeds { specs }] => {
            assert_eq!(1, specs.len());
            assert_eq!("greet", specs[0].name);
            assert_eq!("/tmp/work/feeds/00-greet", specs[0].dir);
            assert_eq!("/bin/bash", specs[0].shell);
            assert_eq!("echo hello; sleep 60", specs[0].cmd);
        }
        other => panic!("unexpected actions: {} entries", other.len()),
    }
    let actions = server.feeds_started(vec![meta(0, "greet", 100)], None);
    assert!(matches!(
        actions.as_slice(),
        [
            Action::ArmExpiry {
                pos: 0,
                delay_ms: 200
            },
            Action::ReplyOnOk
        ]
    ));
    assert!(matches!(server.state, State::On));

    let actions = server.handle(Msg::Input {
        pos: 0,
        data: "hello".to_string(),
        now_ms: 5_000,
    });
    assert!(matches!(
        actions.as_slice(),
        [Action::ArmExpiry {
            pos: 0,
            delay_ms: 200
        }]
    ));

    // The armed output timer fires: the new line is published.
    let actions = server.handle(Msg::Output);
    match actions.as_slice() {
        [Action::Publish { data }] => assert_eq!(" hello ", data),
        other => panic!("unexpected actions: {} entries", other.len()),
    }

    // The expiry timer fires: the slot becomes five expiry characters.
    let actions = server.handle(Msg::Expiration { pos: 0 });
    assert!(matches!(actions.as_slice(), [Action::ArmOutput { delay_ms: 100 }]));
    let actions = server.handle(Msg::Output);
    match actions.as_slice() {
        [Action::Publish { data }] => assert_eq!(" _____ ", data),
        other => panic!("unexpected actions: {} entries", other.len()),
    }
}

// The Off reply is deferred until the last feed has exited; only then
// are the timers cancelled and a blank line published.
#[test]
fn orderly_off() {
    let (mut server, _) = Server::new(conf_two_feeds("|"), "/tmp/work".to_string());
    turn_on(&mut server, vec![meta(0, "a", 10), meta(1, "b", 20)]);

    let actions = server.handle(Msg::Off);
    assert!(matches!(
        actions.as_slice(),
        [
            Action::StopFeed { pos: 0 },
            Action::StopFeed { pos: 1 },
            Action::DeferOffReply
        ]
    ));
    assert!(matches!(server.state, State::Offing));

    let actions = server.handle(Msg::FeedExit { pos: 0, ok: true });
    assert!(matches!(actions[0], Action::CleanupFeed { pos: 0 }));
    assert!(!actions
        .iter()
        .any(|a| matches!(a, Action::SignalOffComplete)));
    assert!(matches!(server.state, State::Offing));

    let actions = server.handle(Msg::FeedExit { pos: 1, ok: true });
    assert!(matches!(actions[0], Action::CleanupFeed { pos: 1 }));
    assert!(actions
        .iter()
        .any(|a| matches!(a, Action::SignalOffComplete)));
    assert!(actions.iter().any(|a| matches!(a, Action::DropX11)));
    match actions.last() {
        Some(Action::Publish { data }) => assert_eq!("", data),
        _ => panic!("expected a final blank publish"),
    }
    assert!(matches!(server.state, State::Off));
    assert!(server.expiration_timers.is_empty());
    assert!(server.feeds.is_empty());

    // Off holds no feeds: a status request now reports up-off.
    let report = server.status(&vec![None, None], 10_000);
    assert!(matches!(report, barista::status::Status::UpOff));
}

// A feed's exit cancels its expiry timer with it, and a late line for
// the dead slot does not arm a new one: a slot without a feed keeps no
// armed timer.
#[test]
fn exit_cancels_expiry_timer() {
    let (mut server, _) = Server::new(conf_one_feed(Some(200), 100), "/tmp/work".to_string());
    server.handle(Msg::On);
    server.feeds_started(vec![meta(0, "greet", 100)], None);
    assert!(server.expiration_timers[0]);

    let actions = server.handle(Msg::FeedExit { pos: 0, ok: true });
    assert!(matches!(actions[0], Action::CleanupFeed { pos: 0 }));
    assert!(matches!(actions[1], Action::CancelExpiry { pos: 0 }));
    assert!(!server.expiration_timers[0]);
    assert!(server.feeds[0].is_none());

    let actions = server.handle(Msg::Input {
        pos: 0,
        data: "late".to_string(),
        now_ms: 9,
    });
    assert!(!actions
        .iter()
        .any(|a| matches!(a, Action::ArmExpiry { .. })));
    assert!(!server.expiration_timers[0]);
}

// Reloading is only possible while Off; once the new configuration is
// installed, the next turn-on publishes with the new separator.
#[test]
fn reload() {
    let (mut server, _) = Server::new(conf_two_feeds("   "), "/tmp/work".to_string());
    turn_on(&mut server, vec![meta(0, "a", 10), meta(1, "b", 20)]);

    // While On, a reconfiguration request is refused.
    let actions = server.handle(Msg::Reconf);
    assert!(matches!(actions.as_slice(), [Action::ReplyReconfErr { .. }]));

    // Off, drain both feeds.
    server.handle(Msg::Off);
    server.handle(Msg::FeedExit { pos: 0, ok: true });
    server.handle(Msg::FeedExit { pos: 1, ok: true });
    assert!(matches!(server.state, State::Off));

    let actions = server.handle(Msg::Reconf);
    assert!(matches!(actions.as_slice(), [Action::LoadConf]));
    let actions = server.reconf_loaded(Ok(conf_two_feeds("|")));
    assert!(matches!(actions.as_slice(), [Action::ReplyReconfOk]));

    turn_on(&mut server, vec![meta(0, "a", 30), meta(1, "b", 40)]);
    server.handle(Msg::Input {
        pos: 0,
        data: "x".to_string(),
        now_ms: 1,
    });
    server.handle(Msg::Input {
        pos: 1,
        data: "y".to_string(),
        now_ms: 2,
    });
    let actions = server.handle(Msg::Output);
    match actions.as_slice() {
        [Action::Publish { data }] => assert_eq!("x|y", data),
        other => panic!("unexpected actions: {} entries", other.len()),
    }
}

// A feed exiting on its own while On is cleaned up, its slot expired and
// published; the supervisor stays On.
#[test]
fn unsolicited_exit() {
    let (mut server, _) = Server::new(conf_one_feed(None, 100), "/tmp/work".to_string());
    turn_on(&mut server, vec![meta(0, "greet", 100)]);

    server.handle(Msg::Input {
        pos: 0,
        data: "once".to_string(),
        now_ms: 7,
    });
    let actions = server.handle(Msg::Output);
    match actions.as_slice() {
        [Action::Publish { data }] => assert_eq!(" once ", data),
        other => panic!("unexpected actions: {} entries", other.len()),
    }

    let actions = server.handle(Msg::FeedExit { pos: 0, ok: true });
    match actions.as_slice() {
        [Action::CleanupFeed { pos: 0 }, Action::Publish { data }] => {
            assert_eq!(" ____ ", data);
        }
        other => panic!("unexpected actions: {} entries", other.len()),
    }
    assert!(matches!(server.state, State::On));
    assert!(server.feeds[0].is_none());

    // A late line for the dead slot still updates the bar.
    server.handle(Msg::Input {
        pos: 0,
        data: "late".to_string(),
        now_ms: 9,
    });
    let actions = server.handle(Msg::Output);
    match actions.as_slice() {
        [Action::Publish { data }] => assert_eq!(" late ", data),
        other => panic!("unexpected actions: {} entries", other.len()),
    }
}

// While Off, input, expiry and output ticks are dropped without actions;
// On and Off requests while already there reply immediately.
#[test]
fn off_drops_and_idempotence() {
    let (mut server, _) = Server::new(conf_one_feed(Some(200), 100), "/tmp/work".to_string());
    assert!(server
        .handle(Msg::Input {
            pos: 0,
            data: "x".to_string(),
            now_ms: 1
        })
        .is_empty());
    assert!(server.handle(Msg::Expiration { pos: 0 }).is_empty());
    assert!(server.handle(Msg::Output).is_empty());
    let actions = server.handle(Msg::Off);
    assert!(matches!(actions.as_slice(), [Action::ReplyOffNow]));

    turn_on(&mut server, vec![meta(0, "greet", 100)]);
    let actions = server.handle(Msg::On);
    assert!(matches!(actions.as_slice(), [Action::ReplyOnOk]));
    server.handle(Msg::Off);
    let actions = server.handle(Msg::On);
    assert!(matches!(actions.as_slice(), [Action::ReplyOnErr { .. }]));
}

// A status request asks the runtime to gather; the assembled report is
// up-off with no feed slots and one row per live feed otherwise.
#[test]
fn status_report() {
    let (mut server, _) = Server::new(conf_one_feed(None, 100), "/tmp/work".to_string());
    let actions = server.handle(Msg::Status);
    assert!(matches!(actions.as_slice(), [Action::GatherStatus]));
    let report = server.status(&vec![None], 10_000);
    assert!(matches!(report, barista::status::Status::UpOff));

    turn_on(&mut server, vec![meta(0, "greet", 100)]);
    server.handle(Msg::Input {
        pos: 0,
        data: "hello".to_string(),
        now_ms: 9_000,
    });
    let gathered = vec![Some(barista::status::Gathered {
        log_mtime_ms: 8_000,
        log_size_bytes: 12,
        log_text: Some("one\ntwo\n".to_string()),
        state: Some(barista::ps::State::SleepInterruptible),
        pdescendants: vec![],
    })];
    let report = server.status(&gathered, 10_000);
    match report {
        barista::status::Status::UpOn { feeds } => {
            assert_eq!(1, feeds.len());
            assert_eq!(1, feeds[0].position);
            assert_eq!("greet", feeds[0].name);
            assert_eq!("/tmp/work/feeds/00-greet", feeds[0].dir);
            assert_eq!(Some(1_000), feeds[0].age_of_output_ms);
            assert_eq!(Some(2_000), feeds[0].age_of_log_ms);
            assert_eq!(12, feeds[0].log_size_bytes);
            assert_eq!(2, feeds[0].log_lines);
            assert_eq!(100, feeds[0].pid);
        }
        _ => panic!("expected a feed table"),
    }
}

// A spawn failure keeps the partial set installed and the supervisor
// Off, and hands the error back.
#[test]
fn partial_spawn_failure() {
    let (mut server, _) = Server::new(conf_two_feeds("|"), "/tmp/work".to_string());
    let actions = server.handle(Msg::On);
    assert!(matches!(actions.as_slice(), [Action::SpawnFeeds { .. }]));
    let actions = server.feeds_started(
        vec![meta(0, "a", 10)],
        Some("no such shell".to_string()),
    );
    match actions.last() {
        Some(Action::ReplyOnErr { reason }) => assert_eq!("no such shell", reason),
        _ => panic!("expected a failure reply"),
    }
    assert!(matches!(server.state, State::Off));
    assert_eq!(1, server.feeds.len());
    assert!(server.feeds[0].is_some());

    // A status request in the partial state reports the installed
    // prefix.
    let gathered = vec![
        Some(barista::status::Gathered {
            log_mtime_ms: 500,
            log_size_bytes: 0,
            log_text: Some(String::new()),
            state: None,
            pdescendants: vec![],
        }),
        None,
    ];
    let report = server.status(&gathered, 1_000);
    match report {
        barista::status::Status::UpOn { feeds } => {
            assert_eq!(1, feeds.len());
            assert_eq!(1, feeds[0].position);
            assert_eq!("a", feeds[0].name);
        }
        _ => panic!("expected a feed table"),
    }
}
