use ddk::address::IpAddress;
use ddk::aliyun::AliYun;
use ddk::cloudflare::{classify_lookup, Cloudflare};
use ddk::config::{get_flag, get_integer, get_text, ConfigError};
use ddk::function::{create, Registrar};
use ddk::registrar::{
    parse_record_type, Method, ReconcileOutcome, RecordType, RegistrarError, RegistrarRecordState,
    Reply, Request, Step,
};

fn cloudflare(type_: &str, ttl: &str, proxied: &str) -> Cloudflare {
    Cloudflare::new(
        "key".to_string(),
        "me@example.com".to_string(),
        "zone1".to_string(),
        type_.to_string(),
        "host".to_string(),
        "example.com".to_string(),
        ttl.to_string(),
        proxied.to_string(),
    )
}

fn aliyun(type_: &str) -> AliYun {
    AliYun::new(
        "id".to_string(),
        "secret".to_string(),
        "9999985".to_string(),
        "host".to_string(),
        type_.to_string(),
        "600".to_string(),
        "default".to_string(),
    )
}

fn ok(body: &str) -> Option<Reply> {
    Some(Reply { status: Some(200), body: body.to_string() })
}

fn listing(content: &str) -> String {
    format!(
        "{{\"success\":true,\"result_info\":{{\"count\":1}},\"result\":[{{\"id\":\"r1\",\"content\":\"{content}\"}}]}}"
    )
}

fn field<'a>(request: &'a Request, name: &str) -> Option<&'a str> {
    request.fields.iter().find(|(k, _)| k == name).map(|(_, v)| v.as_str())
}

#[test]
fn names_the_record_types() {
    assert_eq!(parse_record_type("A"), RecordType::A);
    assert_eq!(parse_record_type("AAAA"), RecordType::AAAA);
    assert_eq!(parse_record_type("CNAME"), RecordType::Other);
    assert_eq!(parse_record_type("a"), RecordType::Other);
    assert_eq!(parse_record_type(""), RecordType::Other);
    assert_eq!(parse_record_type("AA"), RecordType::Other);
}

#[test]
fn cloudflare_asks_for_the_record_by_zone_type_and_name() {
    let request = cloudflare("A", "120", "false").lookup_request();
    assert_eq!(request.method, Method::Get);
    assert_eq!(
        request.target,
        "https://api.cloudflare.com/client/v4/zones/zone1/dns_records?type=A&name=host.example.com&order=type&direction=desc&match=all"
    );
    assert_eq!(
        request.fields,
        vec![
            ("X-Auth-Email".to_string(), "me@example.com".to_string()),
            ("X-Auth-Key".to_string(), "key".to_string()),
            ("Content-type".to_string(), "application/json".to_string()),
        ]
    );
    assert!(request.body.is_none());
}

#[test]
fn cloudflare_reads_one_record_from_a_listing() {
    let c = cloudflare("A", "120", "false");
    let reply = Reply { status: Some(200), body: listing("203.0.113.5") };
    match c.read_lookup(&reply) {
        RegistrarRecordState::Single { id, content } => {
            assert_eq!(id, "r1");
            assert_eq!(content, "203.0.113.5");
        },
        other => panic!("{other:?}"),
    }
}

#[test]
fn cloudflare_reads_no_record_from_anything_else() {
    let c = cloudflare("A", "120", "false");
    for body in [
        "",
        "not json",
        "[]",
        "{}",
        "{\"success\":false,\"result_info\":{\"count\":1},\"result\":[{\"id\":\"r1\",\"content\":\"1.2.3.4\"}]}",
        "{\"success\":true,\"result_info\":{\"count\":0},\"result\":[]}",
        "{\"success\":true,\"result_info\":{\"count\":1},\"result\":[]}",
        "{\"success\":true,\"result_info\":{\"count\":1},\"result\":[{\"id\":\"r1\"}]}",
        "{\"success\":true,\"result_info\":{\"count\":1},\"result\":[{\"id\":7,\"content\":\"1.2.3.4\"}]}",
        "{\"success\":true,\"result_info\":{\"count\":-1},\"result\":[{\"id\":\"r1\",\"content\":\"1.2.3.4\"}]}",
        "{\"success\":true,\"result\":[{\"id\":\"r1\",\"content\":\"1.2.3.4\"}]}",
        "{\"success\":\"true\",\"result_info\":{\"count\":1},\"result\":[{\"id\":\"r1\",\"content\":\"1.2.3.4\"}]}",
    ] {
        let reply = Reply { status: Some(200), body: body.to_string() };
        assert!(
            matches!(c.read_lookup(&reply), RegistrarRecordState::Missing),
            "for {body}"
        );
    }
}

#[test]
fn cloudflare_reads_more_than_one_record() {
    let c = cloudflare("A", "120", "false");
    for body in [
        "{\"success\":true,\"result_info\":{\"count\":2},\"result\":[{\"id\":\"r1\",\"content\":\"1.2.3.4\"},{\"id\":\"r2\",\"content\":\"1.2.3.5\"}]}",
        "{\"success\":true,\"result_info\":{\"count\":1},\"result\":[{\"id\":\"r1\",\"content\":\"1.2.3.4\"},{\"id\":\"r2\",\"content\":\"1.2.3.5\"}]}",
        "{\"success\":true,\"result_info\":{\"count\":3},\"result\":[{\"id\":\"r1\",\"content\":\"1.2.3.4\"}]}",
    ] {
        let reply = Reply { status: Some(200), body: body.to_string() };
        assert!(
            matches!(c.read_lookup(&reply), RegistrarRecordState::Multiple),
            "for {body}"
        );
    }
}

#[test]
fn classifies_what_was_read_of_a_listing() {
    let id = || Some("r1".to_string());
    let content = || Some("1.2.3.4".to_string());
    assert!(matches!(
        classify_lookup(Some(true), Some(1), Some(1), id(), content()),
        RegistrarRecordState::Single { .. }
    ));
    assert!(matches!(
        classify_lookup(Some(false), Some(1), Some(1), id(), content()),
        RegistrarRecordState::Missing
    ));
    assert!(matches!(
        classify_lookup(None, Some(2), Some(2), id(), content()),
        RegistrarRecordState::Missing
    ));
    assert!(matches!(
        classify_lookup(Some(true), Some(2), Some(1), id(), content()),
        RegistrarRecordState::Multiple
    ));
    assert!(matches!(
        classify_lookup(Some(true), Some(1), Some(2), id(), content()),
        RegistrarRecordState::Multiple
    ));
    assert!(matches!(
        classify_lookup(Some(true), Some(0), Some(0), None, None),
        RegistrarRecordState::Missing
    ));
    assert!(matches!(
        classify_lookup(Some(true), Some(1), Some(1), None, content()),
        RegistrarRecordState::Missing
    ));
    assert!(matches!(
        classify_lookup(Some(true), Some(1), None, id(), content()),
        RegistrarRecordState::Missing
    ));
}

#[test]
fn cloudflare_writes_the_whole_record() {
    let request = cloudflare("A", "120", "true").write_request("r1", "203.0.113.9").unwrap();
    assert_eq!(request.method, Method::Put);
    assert_eq!(request.target, "https://api.cloudflare.com/client/v4/zones/zone1/dns_records/r1");
    assert_eq!(field(&request, "X-Auth-Key"), Some("key"));
    let body: serde_json::Value = serde_json::from_str(request.body.as_ref().unwrap()).unwrap();
    let object = body.as_object().unwrap();
    assert_eq!(object.len(), 5);
    assert_eq!(body["type"].as_str(), Some("A"));
    assert_eq!(body["name"].as_str(), Some("host"));
    assert_eq!(body["content"].as_str(), Some("203.0.113.9"));
    assert_eq!(body["ttl"].as_u64(), Some(120));
    assert_eq!(body["proxied"].as_bool(), Some(true));
    assert_eq!(
        request.body.as_deref(),
        Some(r#"{"content":"203.0.113.9","name":"host","proxied":true,"ttl":120,"type":"A"}"#)
    );
}

#[test]
fn cloudflare_escapes_what_it_writes() {
    let c = Cloudflare::new(
        "k".to_string(),
        "e".to_string(),
        "z".to_string(),
        "A".to_string(),
        "ho\"st\\".to_string(),
        "example.com".to_string(),
        "+0042".to_string(),
        "false".to_string(),
    );
    let request = c.write_request("r1", "1.2.3.4").unwrap();
    let body: serde_json::Value = serde_json::from_str(request.body.as_ref().unwrap()).unwrap();
    assert_eq!(body["name"].as_str(), Some("ho\"st\\"));
    assert_eq!(body["ttl"].as_u64(), Some(42));
}

#[test]
fn cloudflare_cannot_write_without_a_time_to_live_or_a_flag() {
    for (ttl, proxied) in [
        ("", "true"),
        ("abc", "true"),
        ("-1", "true"),
        ("4294967296", "true"),
        ("1.5", "true"),
        ("+", "true"),
        ("120", ""),
        ("120", "yes"),
        ("120", "True"),
        ("120", "1"),
    ] {
        assert!(
            cloudflare("A", ttl, proxied).write_request("r1", "1.2.3.4").is_none(),
            "for {ttl:?} and {proxied:?}"
        );
    }
    assert!(cloudflare("A", "4294967295", "false").write_request("r1", "1.2.3.4").is_some());
    assert!(cloudflare("A", "0", "false").write_request("r1", "1.2.3.4").is_some());
}

#[test]
fn cloudflare_takes_a_status_of_success_for_a_write() {
    let c = cloudflare("A", "120", "false");
    for (status, accepted) in [
        (Some(200), true),
        (Some(204), true),
        (Some(299), true),
        (Some(199), false),
        (Some(300), false),
        (Some(404), false),
        (Some(500), false),
        (None, false),
    ] {
        let reply = Reply { status, body: String::new() };
        assert_eq!(c.write_accepted(&reply), accepted, "for {status:?}");
    }
}

#[test]
fn aliyun_asks_for_the_record_by_its_identifier() {
    let request = aliyun("A").lookup_request();
    assert_eq!(request.method, Method::Call);
    assert_eq!(request.target, "DescribeDomainRecordInfo");
    assert_eq!(request.fields, vec![("RecordId".to_string(), "9999985".to_string())]);
    assert!(request.body.is_none());
    assert_eq!(AliYun::endpoint(), "https://alidns.aliyuncs.com/");
    assert_eq!(AliYun::api_version(), "2015-01-09");
    assert_eq!(aliyun("A").key_id(), "id");
    assert_eq!(aliyun("A").key_secret(), "secret");
}

#[test]
fn aliyun_reads_the_record_from_a_description() {
    let a = aliyun("A");
    let reply = Reply {
        status: None,
        body: "{\"RecordId\":\"9999985\",\"RR\":\"host\",\"Type\":\"A\",\"Value\":\"203.0.113.5\",\"TTL\":600}".to_string(),
    };
    match a.read_lookup(&reply) {
        RegistrarRecordState::Single { id, content } => {
            assert_eq!(id, "9999985");
            assert_eq!(content, "203.0.113.5");
        },
        other => panic!("{other:?}"),
    }
    for body in [
        "",
        "{\"Code\":\"InvalidRecordId\",\"Message\":\"no such record\"}",
        "{\"RecordId\":\"9999985\"}",
        "{\"Value\":\"1.2.3.4\"}",
        "{\"RecordId\":9999985,\"Value\":\"1.2.3.4\"}",
    ] {
        let reply = Reply { status: None, body: body.to_string() };
        assert!(matches!(a.read_lookup(&reply), RegistrarRecordState::Missing), "for {body}");
    }
}

#[test]
fn aliyun_writes_the_whole_record() {
    let request = aliyun("A").write_request("9999985", "203.0.113.9");
    assert_eq!(request.method, Method::Call);
    assert_eq!(request.target, "UpdateDomainRecord");
    assert_eq!(
        request.fields,
        vec![
            ("RecordId".to_string(), "9999985".to_string()),
            ("RR".to_string(), "host".to_string()),
            ("Type".to_string(), "A".to_string()),
            ("TTL".to_string(), "600".to_string()),
            ("Line".to_string(), "default".to_string()),
            ("Value".to_string(), "203.0.113.9".to_string()),
        ]
    );
}

#[test]
fn aliyun_takes_the_body_for_the_answer_to_a_write() {
    let a = aliyun("A");
    let yes = Reply { status: None, body: "{\"RequestId\":\"x\",\"RecordId\":\"9999985\"}".to_string() };
    let no = Reply { status: Some(200), body: "{\"Code\":\"Throttling\",\"Message\":\"slow down\"}".to_string() };
    let garbage = Reply { status: Some(200), body: "<html>".to_string() };
    assert!(a.write_accepted(&yes));
    assert!(!a.write_accepted(&no));
    assert!(!a.write_accepted(&garbage));
}

#[test]
fn reconcile_leaves_a_record_that_holds_the_address() {
    let registrar = Registrar::Cloudflare(cloudflare("A", "120", "false"));
    let desired = IpAddress::parse("203.0.113.9").unwrap();
    let run = registrar.reconcile(&desired, &ok(&listing("203.0.113.9")), &ok(""));
    assert_eq!(run.outcome, Ok(ReconcileOutcome::Unchanged));
    assert_eq!(run.lookups.len(), 1);
    assert_eq!(run.writes.len(), 0);
}

#[test]
fn reconcile_writes_once_where_the_record_holds_another_address() {
    let registrar = Registrar::Cloudflare(cloudflare("A", "120", "false"));
    let desired = IpAddress::parse("203.0.113.9").unwrap();
    let run = registrar.reconcile(&desired, &ok(&listing("203.0.113.5")), &ok("{}"));
    assert_eq!(run.outcome, Ok(ReconcileOutcome::Updated));
    assert_eq!(run.lookups.len(), 1);
    assert_eq!(run.writes.len(), 1);
    assert!(run.writes[0].target.ends_with("/dns_records/r1"));
    let body: serde_json::Value =
        serde_json::from_str(run.writes[0].body.as_ref().unwrap()).unwrap();
    assert_eq!(body["content"].as_str(), Some("203.0.113.9"));
}

#[test]
fn reconcile_fails_closed_on_no_record_and_on_several() {
    let registrar = Registrar::Cloudflare(cloudflare("A", "120", "false"));
    let desired = IpAddress::parse("203.0.113.9").unwrap();
    let none = "{\"success\":true,\"result_info\":{\"count\":0},\"result\":[]}";
    let two = "{\"success\":true,\"result_info\":{\"count\":2},\"result\":[{\"id\":\"r1\",\"content\":\"1.1.1.1\"},{\"id\":\"r2\",\"content\":\"2.2.2.2\"}]}";
    for body in [none, two, "nonsense"] {
        let run = registrar.reconcile(&desired, &ok(body), &ok(""));
        assert_eq!(run.outcome, Err(RegistrarError::LookupAmbiguous), "for {body}");
        assert_eq!(run.writes.len(), 0);
    }
}

#[test]
fn reconcile_names_each_failure() {
    let desired = IpAddress::parse("203.0.113.9").unwrap();
    let registrar = Registrar::Cloudflare(cloudflare("A", "120", "false"));

    let run = registrar.reconcile(&desired, &None, &ok(""));
    assert_eq!(run.outcome, Err(RegistrarError::TransportError));
    assert_eq!((run.lookups.len(), run.writes.len()), (1, 0));

    let run = registrar.reconcile(&desired, &ok(&listing("203.0.113.5")), &None);
    assert_eq!(run.outcome, Err(RegistrarError::WriteFailed));
    assert_eq!((run.lookups.len(), run.writes.len()), (1, 1));

    let refused = Some(Reply { status: Some(403), body: String::new() });
    let run = registrar.reconcile(&desired, &ok(&listing("203.0.113.5")), &refused);
    assert_eq!(run.outcome, Err(RegistrarError::WriteFailed));

    let unwritable = Registrar::Cloudflare(cloudflare("A", "soon", "false"));
    let run = unwritable.reconcile(&desired, &ok(&listing("203.0.113.5")), &ok(""));
    assert_eq!(run.outcome, Err(RegistrarError::WriteFailed));
    assert_eq!((run.lookups.len(), run.writes.len()), (1, 0));

    let other = Registrar::Cloudflare(cloudflare("CNAME", "120", "false"));
    let run = other.reconcile(&desired, &ok(&listing("203.0.113.5")), &ok(""));
    assert_eq!(run.outcome, Err(RegistrarError::UnsupportedRecordType));
    assert_eq!((run.lookups.len(), run.writes.len()), (0, 0));
}

#[test]
fn reconcile_compares_the_texts_as_they_stand() {
    let registrar = Registrar::Cloudflare(cloudflare("AAAA", "120", "false"));
    let desired = IpAddress::parse("2001:db8::1").unwrap();
    let same = registrar.reconcile(&desired, &ok(&listing("2001:db8::1")), &ok(""));
    assert_eq!(same.outcome, Ok(ReconcileOutcome::Unchanged));
    let long = registrar.reconcile(&desired, &ok(&listing("2001:0db8:0:0:0:0:0:1")), &ok(""));
    assert_eq!(long.outcome, Ok(ReconcileOutcome::Updated));
    assert_eq!(long.writes.len(), 1);
}

#[test]
fn reconcile_runs_against_aliyun_too() {
    let registrar = Registrar::AliYun(aliyun("A"));
    let desired = IpAddress::parse("203.0.113.9").unwrap();
    let held = |value: &str| {
        Some(Reply {
            status: None,
            body: format!("{{\"RecordId\":\"9999985\",\"Value\":\"{value}\"}}"),
        })
    };
    let written = Some(Reply { status: None, body: "{\"RecordId\":\"9999985\"}".to_string() });

    let run = registrar.reconcile(&desired, &held("203.0.113.9"), &written);
    assert_eq!(run.outcome, Ok(ReconcileOutcome::Unchanged));
    assert_eq!(run.writes.len(), 0);

    let run = registrar.reconcile(&desired, &held("203.0.113.5"), &written);
    assert_eq!(run.outcome, Ok(ReconcileOutcome::Updated));
    assert_eq!(run.writes.len(), 1);
    assert_eq!(field(&run.writes[0], "Value"), Some("203.0.113.9"));

    let failed = Some(Reply { status: None, body: "{\"Code\":\"Forbidden\"}".to_string() });
    let run = registrar.reconcile(&desired, &held("203.0.113.5"), &failed);
    assert_eq!(run.outcome, Err(RegistrarError::WriteFailed));

    let run = registrar.reconcile(&desired, &failed, &written);
    assert_eq!(run.outcome, Err(RegistrarError::LookupAmbiguous));
}

#[test]
fn begins_with_the_lookup() {
    let registrar = Registrar::Cloudflare(cloudflare("A", "120", "false"));
    match registrar.begin() {
        Step::Send(request) => assert_eq!(request.method, Method::Get),
        other => panic!("{other:?}"),
    }
    let other = Registrar::AliYun(aliyun("MX"));
    assert!(matches!(other.begin(), Step::Done(Err(RegistrarError::UnsupportedRecordType))));
}

fn cloudflare_config() -> toml::Value {
    toml::from_str(
        r#"
domain_registrar = "cloudflare"
ip_address_from_cmd = "curl -s https://ip.example.com"

[api_param]
api_key = "key"
email = "me@example.com"
zone_id = "zone1"
record_type = "A"
record_name = "host"
domain = "example.com"
record_ttl = 120
record_proxied = false
"#,
    )
    .unwrap()
}

fn with_entry(mut config: toml::Value, key: &str, value: toml::Value) -> toml::Value {
    config.as_table_mut().unwrap().insert(key.to_string(), value);
    config
}

fn without_entry(mut config: toml::Value, key: &str) -> toml::Value {
    config.as_table_mut().unwrap().remove(key);
    config
}

fn with_param(mut config: toml::Value, key: &str, value: toml::Value) -> toml::Value {
    config
        .get_mut("api_param")
        .unwrap()
        .as_table_mut()
        .unwrap()
        .insert(key.to_string(), value);
    config
}

fn without_param(mut config: toml::Value, key: &str) -> toml::Value {
    config.get_mut("api_param").unwrap().as_table_mut().unwrap().remove(key);
    config
}

#[test]
fn creates_a_record_at_cloudflare() {
    match create(&cloudflare_config()).unwrap() {
        Registrar::Cloudflare(c) => {
            assert_eq!(c.record_type(), "A");
            let request = c.write_request("r1", "1.2.3.4").unwrap();
            let body: serde_json::Value =
                serde_json::from_str(request.body.as_ref().unwrap()).unwrap();
            assert_eq!(body["ttl"].as_u64(), Some(120));
            assert_eq!(body["proxied"].as_bool(), Some(false));
            assert_eq!(
                c.lookup_request().target,
                "https://api.cloudflare.com/client/v4/zones/zone1/dns_records?type=A&name=host.example.com&order=type&direction=desc&match=all"
            );
        },
        other => panic!("{other:?}"),
    }
}

#[test]
fn creates_a_record_at_aliyun() {
    let config: toml::Value = toml::from_str(
        r#"
domain_registrar = "aliyun"

[api_param]
key_id = "id"
key_secret = "secret"
record_id = "9999985"
record_rr = "host"
record_type = "AAAA"
record_ttl = "600"
record_line = "default"
"#,
    )
    .unwrap();
    match create(&config).unwrap() {
        Registrar::AliYun(a) => {
            assert_eq!(a.record_type(), "AAAA");
            assert_eq!(a.key_id(), "id");
            assert_eq!(a.key_secret(), "secret");
            assert_eq!(a.lookup_request().fields[0].1, "9999985");
            let write = a.write_request("9999985", "2001:db8::1");
            assert_eq!(write.fields[3], ("TTL".to_string(), "600".to_string()));
            assert_eq!(write.fields[4], ("Line".to_string(), "default".to_string()));
        },
        other => panic!("{other:?}"),
    }
}

#[test]
fn says_why_a_record_cannot_be_created() {
    let config = without_entry(cloudflare_config(), "domain_registrar");
    assert_eq!(create(&config).err(), Some(ConfigError::MissingRegistrar));

    let config = with_entry(cloudflare_config(), "domain_registrar", toml::Value::Integer(1));
    assert_eq!(create(&config).err(), Some(ConfigError::MissingRegistrar));

    let config = with_entry(
        cloudflare_config(),
        "domain_registrar",
        toml::Value::String("route53".to_string()),
    );
    assert_eq!(create(&config).err(), Some(ConfigError::UnknownRegistrar));

    let config = without_entry(cloudflare_config(), "api_param");
    assert_eq!(create(&config).err(), Some(ConfigError::InvalidParameter));

    let config =
        with_entry(cloudflare_config(), "api_param", toml::Value::String("none".to_string()));
    assert_eq!(create(&config).err(), Some(ConfigError::InvalidParameter));

    let config = without_param(cloudflare_config(), "zone_id");
    assert_eq!(create(&config).err(), Some(ConfigError::InvalidParameter));

    let config =
        with_param(cloudflare_config(), "record_ttl", toml::Value::String("120".to_string()));
    assert_eq!(create(&config).err(), Some(ConfigError::InvalidParameter));

    let config = with_param(cloudflare_config(), "record_proxied", toml::Value::Float(1.5));
    assert_eq!(create(&config).err(), Some(ConfigError::InvalidParameter));

    let config = with_entry(
        cloudflare_config(),
        "domain_registrar",
        toml::Value::String("aliyun".to_string()),
    );
    assert_eq!(create(&config).err(), Some(ConfigError::InvalidParameter));

    assert_eq!(
        create(&toml::Value::String("cloudflare".to_string())).err(),
        Some(ConfigError::MissingRegistrar)
    );
}

#[test]
fn a_negative_time_to_live_is_kept_but_cannot_be_written() {
    let config = with_param(cloudflare_config(), "record_ttl", toml::Value::Integer(-5));
    match create(&config).unwrap() {
        Registrar::Cloudflare(c) => assert!(c.write_request("r1", "1.2.3.4").is_none()),
        other => panic!("{other:?}"),
    }
    let config = with_param(cloudflare_config(), "record_ttl", toml::Value::Integer(i64::MIN));
    assert!(create(&config).is_ok());
}

#[test]
fn a_configured_record_can_be_written_where_its_time_to_live_fits() {
    for (ttl, writable) in [
        (0i64, true),
        (1, true),
        (4294967295, true),
        (4294967296, false),
        (-1, false),
        (i64::MAX, false),
    ] {
        let config = with_param(cloudflare_config(), "record_ttl", toml::Value::Integer(ttl));
        match create(&config).unwrap() {
            Registrar::Cloudflare(c) => {
                let request = c.write_request("r1", "1.2.3.4");
                assert_eq!(request.is_some(), writable, "{ttl}");
                if let Some(request) = request {
                    let body: serde_json::Value =
                        serde_json::from_str(request.body.as_ref().unwrap()).unwrap();
                    assert_eq!(body["ttl"].as_i64(), Some(ttl));
                }
            },
            other => panic!("{other:?}"),
        }
    }
}

#[test]
fn reads_the_entries_of_a_table_by_their_kind() {
    let config = cloudflare_config();
    assert_eq!(get_text(&config, "domain_registrar"), Some("cloudflare".to_string()));
    assert_eq!(get_text(&config, "api_param"), None);
    assert_eq!(get_text(&config, "nothing"), None);
    let params = config.get("api_param").unwrap();
    assert_eq!(get_text(params, "record_name"), Some("host".to_string()));
    assert_eq!(get_text(params, "record_ttl"), None);
    assert_eq!(get_integer(params, "record_ttl"), Some(120));
    assert_eq!(get_integer(params, "record_name"), None);
    assert_eq!(get_integer(params, "record_proxied"), None);
    assert_eq!(get_flag(params, "record_proxied"), Some(false));
    assert_eq!(get_flag(params, "record_ttl"), None);
    assert_eq!(get_flag(&toml::Value::Boolean(true), "record_proxied"), None);
}
