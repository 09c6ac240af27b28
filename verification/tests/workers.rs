use ddk::address::IpAddress;
use ddk::cloudflare::Cloudflare;
use ddk::config::{Config, ConfigError, Global};
use ddk::dispatch::{maybe_dispatch, substitute, DedupState};
use ddk::function::Registrar;
use ddk::record::RecordSpec;
use ddk::registrar::{Method, RecordType, RegistrarError, Reply};
use ddk::resolver::{resolve, ResolutionError};
use ddk::worker::{
    start_worker, Action, Event, Report, Worker, WorkerState, POLL_INTERVAL_SECS,
};

fn record(type_: &str, on_update: Option<&str>) -> RecordSpec {
    RecordSpec {
        registrar: Registrar::Cloudflare(Cloudflare::new(
            "key".to_string(),
            "me@example.com".to_string(),
            "zone1".to_string(),
            type_.to_string(),
            "host".to_string(),
            "example.com".to_string(),
            "120".to_string(),
            "false".to_string(),
        )),
        ip_address_from_cmd: "curl -s https://ip.example.com".to_string(),
        ip_address_on_update_cmd: on_update.map(|t| t.to_string()),
    }
}

fn listing(content: &str) -> Option<Reply> {
    Some(Reply {
        status: Some(200),
        body: format!(
            "{{\"success\":true,\"result_info\":{{\"count\":1}},\"result\":[{{\"id\":\"r1\",\"content\":\"{content}\"}}]}}"
        ),
    })
}

fn address(text: &str) -> IpAddress {
    IpAddress::parse(text).unwrap()
}

fn is_sleep(action: &Action) -> bool {
    matches!(action, Action::Sleep { seconds } if *seconds == POLL_INTERVAL_SECS)
}

#[test]
fn resolves_every_literal_to_its_address() {
    for text in ["203.0.113.9", "8.8.8.8", "0.0.0.0"] {
        let got = resolve(&Ok(text.to_string()), RecordType::A).unwrap();
        assert_eq!(got.to_text(), text);
    }
    for text in ["2001:db8::1", "::1", "::ffff:10.0.0.1"] {
        let got = resolve(&Ok(text.to_string()), RecordType::AAAA).unwrap();
        assert_eq!(got.to_text(), text);
    }
}

#[test]
fn resolves_what_is_printed_with_white_space_round_it() {
    let got = resolve(&Ok("  203.0.113.9\r\n".to_string()), RecordType::A).unwrap();
    assert_eq!(got.to_text(), "203.0.113.9");
}

#[test]
fn refuses_what_is_no_address() {
    for text in ["", "\n", "not an address", "203.0.113", "203.0.113.9 extra", "203.0.113.9\n1.2.3.4"] {
        assert_eq!(
            resolve(&Ok(text.to_string()), RecordType::A).err(),
            Some(ResolutionError::ParseError),
            "for {text:?}"
        );
    }
}

#[test]
fn refuses_an_address_of_the_other_family() {
    assert_eq!(
        resolve(&Ok("2001:db8::1".to_string()), RecordType::A).err(),
        Some(ResolutionError::ParseError)
    );
    assert_eq!(
        resolve(&Ok("203.0.113.9".to_string()), RecordType::AAAA).err(),
        Some(ResolutionError::ParseError)
    );
    assert!(resolve(&Ok("203.0.113.9".to_string()), RecordType::Other).is_ok());
    assert!(resolve(&Ok("::1".to_string()), RecordType::Other).is_ok());
}

#[test]
fn a_failed_command_is_a_command_error() {
    assert_eq!(
        resolve(&Err("exit status 1".to_string()), RecordType::A).err(),
        Some(ResolutionError::CommandError)
    );
}

#[test]
fn puts_the_address_in_every_place_of_the_placeholder() {
    let a = address("203.0.113.9");
    assert_eq!(substitute("notify ${IP_ADDRESS}", &a), "notify 203.0.113.9");
    assert_eq!(
        substitute("a ${IP_ADDRESS} b ${IP_ADDRESS}", &a),
        "a 203.0.113.9 b 203.0.113.9"
    );
    assert_eq!(substitute("${IP_ADDRESS}${IP_ADDRESS}", &a), "203.0.113.9203.0.113.9");
    assert_eq!(substitute("nothing to put in", &a), "nothing to put in");
    assert_eq!(substitute("", &a), "");
    assert_eq!(substitute("${IP_ADDRESS", &a), "${IP_ADDRESS");
    assert_eq!(substitute("$${IP_ADDRESS}}", &a), "$203.0.113.9}");
    assert_eq!(substitute("${ip_address}", &a), "${ip_address}");
}

#[test]
fn dispatch_without_commands_does_nothing() {
    let spec = record("A", None);
    let mut dedup = DedupState::new();
    let commands = maybe_dispatch(&spec, &mut dedup, &address("203.0.113.9"));
    assert!(commands.is_empty());
    assert!(dedup.last_dispatched_address.is_none());
}

#[test]
fn dispatch_twice_for_one_address_runs_the_command_once() {
    let spec = record("A", Some("notify ${IP_ADDRESS}"));
    let mut dedup = DedupState::new();
    let a = address("203.0.113.9");
    let first = maybe_dispatch(&spec, &mut dedup, &a);
    let second = maybe_dispatch(&spec, &mut dedup, &a);
    assert_eq!(first, vec!["notify 203.0.113.9"]);
    assert!(second.is_empty());
    assert!(dedup.last_dispatched_address.unwrap().same(&a));
}

#[test]
fn dispatch_fires_again_after_another_address() {
    let spec = record("A", Some("notify ${IP_ADDRESS}"));
    let mut dedup = DedupState::new();
    let a = address("203.0.113.9");
    let b = address("203.0.113.5");
    let mut invocations = 0;
    invocations += maybe_dispatch(&spec, &mut dedup, &a).len();
    invocations += maybe_dispatch(&spec, &mut dedup, &b).len();
    invocations += maybe_dispatch(&spec, &mut dedup, &a).len();
    assert_eq!(invocations, 3);
}

#[test]
fn dispatch_hands_out_every_command_of_the_template() {
    let spec = record("A", Some("echo ${IP_ADDRESS};systemctl reload proxy;"));
    let mut dedup = DedupState::new();
    let commands = maybe_dispatch(&spec, &mut dedup, &address("203.0.113.9"));
    assert_eq!(commands, vec!["echo 203.0.113.9", "systemctl reload proxy", ""]);
}

#[test]
fn a_changed_address_is_written_and_dispatched() {
    let mut worker = Worker::new(record("A", Some("notify ${IP_ADDRESS}")));
    assert!(matches!(worker.state(), WorkerState::Idle));

    let t = worker.step(Event::Started);
    assert!(matches!(worker.state(), WorkerState::Resolving));
    match t.action {
        Action::Discover { command } => assert_eq!(command, "curl -s https://ip.example.com"),
        other => panic!("{other:?}"),
    }

    let t = worker.step(Event::Discovered(Ok("203.0.113.9\n".to_string())));
    assert!(matches!(worker.state(), WorkerState::Reconciling { writing: false, .. }));
    match t.action {
        Action::Send(request) => assert_eq!(request.method, Method::Get),
        other => panic!("{other:?}"),
    }

    let t = worker.step(Event::Replied(listing("203.0.113.5")));
    assert!(matches!(worker.state(), WorkerState::Reconciling { writing: true, .. }));
    let mut writes = 0;
    match t.action {
        Action::Send(request) => {
            writes += 1;
            assert_eq!(request.method, Method::Put);
            let body: serde_json::Value =
                serde_json::from_str(request.body.as_ref().unwrap()).unwrap();
            assert_eq!(body["content"].as_str(), Some("203.0.113.9"));
        },
        other => panic!("{other:?}"),
    }

    let t = worker.step(Event::Replied(Some(Reply { status: Some(200), body: "{}".to_string() })));
    assert!(matches!(worker.state(), WorkerState::Dispatching));
    assert_eq!(t.report, Report::Updated);
    match t.action {
        Action::Run { commands } => assert_eq!(commands, vec!["notify 203.0.113.9"]),
        other => panic!("{other:?}"),
    }

    let t = worker.step(Event::Dispatched);
    assert!(matches!(worker.state(), WorkerState::Sleeping));
    assert!(is_sleep(&t.action));
    assert_eq!(writes, 1);

    let t = worker.step(Event::Woke);
    assert!(matches!(worker.state(), WorkerState::Resolving));
    assert!(matches!(t.action, Action::Discover { .. }));
}

#[test]
fn an_unchanged_address_is_neither_written_nor_dispatched() {
    let mut worker = Worker::new(record("A", Some("notify ${IP_ADDRESS}")));
    worker.step(Event::Started);
    worker.step(Event::Discovered(Ok("203.0.113.9".to_string())));
    assert!(matches!(worker.state(), WorkerState::Reconciling { .. }));
    let t = worker.step(Event::Replied(listing("203.0.113.9")));
    assert!(matches!(worker.state(), WorkerState::Sleeping));
    assert!(is_sleep(&t.action));
    assert_eq!(t.report, Report::Unchanged);
    assert!(worker.dedup().last_dispatched_address.is_none());
}

#[test]
fn a_failed_discovery_asks_the_registrar_nothing() {
    let mut worker = Worker::new(record("A", Some("notify ${IP_ADDRESS}")));
    worker.step(Event::Started);
    let t = worker.step(Event::Discovered(Err("exit status 1".to_string())));
    assert!(matches!(worker.state(), WorkerState::Sleeping));
    assert!(is_sleep(&t.action));
    assert_eq!(t.report, Report::ResolutionFailed(ResolutionError::CommandError));
}

#[test]
fn every_failure_ends_in_sleep() {
    let mut worker = Worker::new(record("A", None));
    worker.step(Event::Started);
    let t = worker.step(Event::Discovered(Ok("nonsense".to_string())));
    assert_eq!(t.report, Report::ResolutionFailed(ResolutionError::ParseError));
    assert!(matches!(worker.state(), WorkerState::Sleeping));

    worker.step(Event::Woke);
    worker.step(Event::Discovered(Ok("203.0.113.9".to_string())));
    let t = worker.step(Event::Replied(None));
    assert_eq!(t.report, Report::ReconcileFailed(RegistrarError::TransportError));
    assert!(is_sleep(&t.action));

    worker.step(Event::Woke);
    worker.step(Event::Discovered(Ok("203.0.113.9".to_string())));
    let t = worker.step(Event::Replied(Some(Reply { status: Some(200), body: "{}".to_string() })));
    assert_eq!(t.report, Report::ReconcileFailed(RegistrarError::LookupAmbiguous));

    worker.step(Event::Woke);
    worker.step(Event::Discovered(Ok("203.0.113.9".to_string())));
    worker.step(Event::Replied(listing("203.0.113.5")));
    let t = worker.step(Event::Replied(Some(Reply { status: Some(500), body: String::new() })));
    assert_eq!(t.report, Report::ReconcileFailed(RegistrarError::WriteFailed));
    assert!(matches!(worker.state(), WorkerState::Sleeping));

    let mut cname = Worker::new(record("CNAME", None));
    cname.step(Event::Started);
    let t = cname.step(Event::Discovered(Ok("203.0.113.9".to_string())));
    assert_eq!(t.report, Report::ReconcileFailed(RegistrarError::UnsupportedRecordType));
    assert!(is_sleep(&t.action));
}

#[test]
fn an_update_without_commands_dispatches_nothing() {
    let mut worker = Worker::new(record("A", None));
    worker.step(Event::Started);
    worker.step(Event::Discovered(Ok("203.0.113.9".to_string())));
    worker.step(Event::Replied(listing("203.0.113.5")));
    let t = worker.step(Event::Replied(Some(Reply { status: Some(200), body: String::new() })));
    assert!(matches!(worker.state(), WorkerState::Dispatching));
    match t.action {
        Action::Run { commands } => assert!(commands.is_empty()),
        other => panic!("{other:?}"),
    }
}

#[test]
fn what_was_not_asked_for_ends_in_sleep() {
    let mut worker = Worker::new(record("A", None));
    let t = worker.step(Event::Woke);
    assert!(is_sleep(&t.action));
    assert!(matches!(worker.state(), WorkerState::Sleeping));
    let t = worker.step(Event::Dispatched);
    assert!(is_sleep(&t.action));
    worker.step(Event::Woke);
    let t = worker.step(Event::Replied(None));
    assert!(is_sleep(&t.action));
    assert_eq!(t.report, Report::Nothing);
}

#[test]
fn remembers_the_address_over_cycles() {
    let mut worker = Worker::new(record("A", Some("notify ${IP_ADDRESS}")));
    worker.step(Event::Started);
    for round in 0..2 {
        worker.step(Event::Discovered(Ok("203.0.113.9".to_string())));
        worker.step(Event::Replied(listing("203.0.113.5")));
        let t = worker.step(Event::Replied(Some(Reply { status: Some(200), body: String::new() })));
        match t.action {
            Action::Run { commands } => assert_eq!(commands.len(), if round == 0 { 1 } else { 0 }),
            other => panic!("{other:?}"),
        }
        worker.step(Event::Dispatched);
        worker.step(Event::Woke);
    }
}

#[test]
fn starts_one_worker_for_each_record() {
    let good: toml::Value = toml::from_str(
        r#"
domain_registrar = "aliyun"
ip_address_from_cmd = "print-address"
ip_address_on_update_cmd = "notify ${IP_ADDRESS}"

[api_param]
key_id = "A"
key_secret = "A"
record_id = "A"
record_rr = "A"
record_type = "A"
record_ttl = "A"
record_line = "A"
"#,
    )
    .unwrap();
    let mut unknown = good.clone();
    unknown
        .as_table_mut()
        .unwrap()
        .insert("domain_registrar".to_string(), toml::Value::String("elsewhere".to_string()));
    let mut silent = good.clone();
    silent.as_table_mut().unwrap().remove("ip_address_from_cmd");
    let mut quiet = good.clone();
    quiet.as_table_mut().unwrap().remove("ip_address_on_update_cmd");
    let config = Config {
        global: Global { api_version: "1".to_string(), post_up_wait: 0, post_up_cmd: String::new() },
        record: vec![good, unknown, silent, quiet],
    };
    let workers = start_worker(&config);
    assert_eq!(workers.len(), 4);
    let first = workers[0].as_ref().unwrap();
    assert!(matches!(first.state(), WorkerState::Idle));
    assert_eq!(first.record().ip_address_from_cmd, "print-address");
    assert_eq!(first.record().ip_address_on_update_cmd.as_deref(), Some("notify ${IP_ADDRESS}"));
    assert!(matches!(workers[1], Err(ConfigError::UnknownRegistrar)));
    assert!(matches!(workers[2], Err(ConfigError::MissingCommand)));
    let last = workers[3].as_ref().unwrap();
    assert_eq!(last.record().ip_address_on_update_cmd, None);
}
