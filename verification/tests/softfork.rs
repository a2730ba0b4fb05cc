use bitcoincore_rpc_json as json;
use rpc_relay::codec::{parse, to_serde};
use rpc_relay::error::{CoreError, Error};
use rpc_relay::json::Json;
use rpc_relay::softfork::{
    convert_legacy_softforks, reports_legacy_softforks, take_legacy_softforks, Bip9SoftforkInfo,
    Bip9SoftforkStatistics, Bip9SoftforkStatus, LegacySoftforks, Softfork, SoftforkType,
    UNIFIED_SINCE,
};
use std::collections::HashMap;

const COMMON: &str = "\"chain\":\"main\",\"blocks\":1,\"headers\":1,\
\"bestblockhash\":\"000000000019d6689c085ae165831e934ff763ae46a2a6c172b3f1b60a8ce26f\",\
\"difficulty\":1.0,\"mediantime\":1231006505,\"verificationprogress\":1.0,\
\"initialblockdownload\":false,\
\"chainwork\":\"0000000000000000000000000000000000000000000000000000000100010001\",\
\"size_on_disk\":293,\"pruned\":false,\"warnings\":\"\"";

const OLD: &str = "\"softforks\":[\
{\"id\":\"bip34\",\"version\":2,\"reject\":{\"status\":true}},\
{\"id\":\"bip66\",\"version\":3,\"reject\":{\"status\":false}}],\
\"bip9_softforks\":{\
\"csv\":{\"status\":\"active\",\"startTime\":1462060800,\"timeout\":1493596800,\"since\":419328},\
\"segwit\":{\"status\":\"started\",\"bit\":1,\"startTime\":-1,\"timeout\":9223372036854775807,\
\"since\":0,\"statistics\":{\"period\":2016,\"threshold\":1916,\"elapsed\":10,\"count\":5,\
\"possible\":true}}}";

const NEW: &str = "\"softforks\":{\
\"bip34\":{\"type\":\"buried\",\"active\":true},\
\"bip66\":{\"type\":\"buried\",\"active\":false},\
\"csv\":{\"type\":\"bip9\",\"bip9\":{\"status\":\"active\",\"start_time\":1462060800,\
\"timeout\":1493596800,\"since\":419328},\"active\":true},\
\"segwit\":{\"type\":\"bip9\",\"bip9\":{\"status\":\"started\",\"bit\":1,\"start_time\":-1,\
\"timeout\":9223372036854775807,\"since\":0,\"statistics\":{\"period\":2016,\"threshold\":1916,\
\"elapsed\":10,\"count\":5,\"possible\":true}},\"active\":false}}";

fn legacy_payload() -> Json {
    parse(&format!("{{{},{}}}", COMMON, OLD)).unwrap()
}

fn status(s: Bip9SoftforkStatus) -> json::Bip9SoftforkStatus {
    match s {
        Bip9SoftforkStatus::Defined => json::Bip9SoftforkStatus::Defined,
        Bip9SoftforkStatus::Started => json::Bip9SoftforkStatus::Started,
        Bip9SoftforkStatus::LockedIn => json::Bip9SoftforkStatus::LockedIn,
        Bip9SoftforkStatus::Active => json::Bip9SoftforkStatus::Active,
        Bip9SoftforkStatus::Failed => json::Bip9SoftforkStatus::Failed,
    }
}

fn outside(s: Softfork) -> json::Softfork {
    json::Softfork {
        type_: match s.type_ {
            SoftforkType::Buried => json::SoftforkType::Buried,
            SoftforkType::Bip9 => json::SoftforkType::Bip9,
            SoftforkType::Other => json::SoftforkType::Other,
        },
        bip9: s.bip9.map(|b| json::Bip9SoftforkInfo {
            status: status(b.status),
            bit: b.bit,
            start_time: b.start_time,
            timeout: b.timeout,
            since: b.since,
            statistics: b.statistics.map(|t| json::Bip9SoftforkStatistics {
                period: t.period,
                threshold: t.threshold,
                elapsed: t.elapsed,
                count: t.count,
                possible: t.possible,
            }),
        }),
        height: s.height,
        active: s.active,
    }
}

fn buried(active: bool) -> Softfork {
    Softfork { type_: SoftforkType::Buried, bip9: None, height: None, active }
}

fn legacy(softforks: &str, bip9_softforks: &str) -> LegacySoftforks {
    LegacySoftforks {
        softforks: parse(softforks).unwrap(),
        bip9_softforks: parse(bip9_softforks).unwrap(),
    }
}

#[test]
fn the_old_shape_ends_with_version_190000() {
    assert_eq!(UNIFIED_SINCE, 190000);
    assert!(reports_legacy_softforks(0));
    assert!(reports_legacy_softforks(180100));
    assert!(reports_legacy_softforks(189999));
    assert!(!reports_legacy_softforks(190000));
    assert!(!reports_legacy_softforks(190001));
    assert!(!reports_legacy_softforks(250000));
}

#[test]
fn the_legacy_payload_gives_the_map_of_the_unified_payload() {
    let (rest, old) = take_legacy_softforks(legacy_payload()).unwrap();
    let mut from_old: json::GetBlockchainInfoResult =
        serde_json::from_value(to_serde(&rest)).unwrap();
    assert!(from_old.softforks.is_empty());
    for (id, softfork) in convert_legacy_softforks(&old, String::new()).unwrap() {
        from_old.softforks.insert(id, outside(softfork));
    }
    let from_new: json::GetBlockchainInfoResult =
        serde_json::from_str(&format!("{{{},{}}}", COMMON, NEW)).unwrap();
    assert_eq!(from_old.softforks.len(), 4);
    assert_eq!(from_old.softforks, from_new.softforks);
    assert_eq!(from_old.chain, from_new.chain);
    assert_eq!(from_old.blocks, from_new.blocks);
    assert_eq!(from_old.best_block_hash, from_new.best_block_hash);
    assert_eq!(from_old.chain_work, from_new.chain_work);
}

#[test]
fn the_legacy_entries_are_converted_field_by_field() {
    let (_, old) = take_legacy_softforks(legacy_payload()).unwrap();
    let entries: HashMap<String, Softfork> =
        convert_legacy_softforks(&old, String::new()).unwrap().into_iter().collect();
    assert_eq!(entries.len(), 4);
    assert_eq!(entries["bip34"], buried(true));
    assert_eq!(entries["bip66"], buried(false));
    assert_eq!(
        entries["csv"],
        Softfork {
            type_: SoftforkType::Bip9,
            bip9: Some(Bip9SoftforkInfo {
                status: Bip9SoftforkStatus::Active,
                bit: None,
                start_time: 1462060800,
                timeout: 1493596800,
                since: 419328,
                statistics: None,
            }),
            height: None,
            active: true,
        }
    );
    assert_eq!(
        entries["segwit"],
        Softfork {
            type_: SoftforkType::Bip9,
            bip9: Some(Bip9SoftforkInfo {
                status: Bip9SoftforkStatus::Started,
                bit: Some(1),
                start_time: -1,
                timeout: 9223372036854775807,
                since: 0,
                statistics: Some(Bip9SoftforkStatistics {
                    period: 2016,
                    threshold: Some(1916),
                    elapsed: 10,
                    count: 5,
                    possible: Some(true),
                }),
            }),
            height: None,
            active: false,
        }
    );
}

#[test]
fn the_rest_has_an_empty_object_in_the_place_of_the_old_members() {
    let (rest, old) =
        take_legacy_softforks(parse("{\"a\":1,\"softforks\":[],\"bip9_softforks\":{},\"z\":2}").unwrap())
            .unwrap();
    assert_eq!(
        rest,
        Json::Object(vec![
            ("a".to_string(), parse("1").unwrap()),
            ("z".to_string(), parse("2").unwrap()),
            ("softforks".to_string(), Json::Object(vec![])),
        ])
    );
    assert_eq!(old, legacy("[]", "{}"));
    assert_eq!(convert_legacy_softforks(&old, String::new()), Ok(vec![]));
}

#[test]
fn a_result_without_both_old_members_is_unexpected() {
    let unexpected = Err(Error::BitcoinCoreRpcError(CoreError::UnexpectedStructure));
    for raw in [
        "[]",
        "null",
        "\"softforks\"",
        "{}",
        "{\"softforks\":[]}",
        "{\"bip9_softforks\":{}}",
        "{\"softforks\":{}}",
    ] {
        assert_eq!(take_legacy_softforks(parse(raw).unwrap()), unexpected);
    }
}

#[test]
fn only_the_status_active_makes_a_deployment_active() {
    for (name, status, active) in [
        ("defined", Bip9SoftforkStatus::Defined, false),
        ("started", Bip9SoftforkStatus::Started, false),
        ("locked_in", Bip9SoftforkStatus::LockedIn, false),
        ("active", Bip9SoftforkStatus::Active, true),
        ("failed", Bip9SoftforkStatus::Failed, false),
    ] {
        let old = legacy(
            "[]",
            &format!(
                "{{\"x\":{{\"status\":\"{}\",\"startTime\":0,\"timeout\":1,\"since\":2}}}}",
                name
            ),
        );
        let entries = convert_legacy_softforks(&old, String::new()).unwrap();
        assert_eq!(entries.len(), 1);
        assert_eq!(entries[0].0, "x");
        assert_eq!(entries[0].1.active, active);
        assert_eq!(entries[0].1.type_, SoftforkType::Bip9);
        assert_eq!(entries[0].1.height, None);
        assert_eq!(entries[0].1.bip9.unwrap().status, status);
        assert_eq!(Softfork::bip9(entries[0].1.bip9.unwrap()), entries[0].1);
    }
}

#[test]
fn a_malformed_element_of_the_array_is_unexpected() {
    let unexpected = Err(Error::BitcoinCoreRpcError(CoreError::UnexpectedStructure));
    for softforks in [
        "{}",
        "null",
        "[1]",
        "[{\"reject\":{\"status\":true}}]",
        "[{\"id\":\"a\"}]",
        "[{\"id\":7,\"reject\":{\"status\":true}}]",
        "[{\"id\":\"a\",\"reject\":true}]",
        "[{\"id\":\"a\",\"reject\":{}}]",
        "[{\"id\":\"a\",\"reject\":{\"status\":\"yes\"}}]",
        "[{\"id\":\"a\",\"reject\":{\"status\":true}},{\"id\":null,\"reject\":{\"status\":true}}]",
    ] {
        assert_eq!(convert_legacy_softforks(&legacy(softforks, "{}"), String::new()), unexpected);
    }
    for bip9 in ["[]", "null", "1", "\"x\""] {
        assert_eq!(convert_legacy_softforks(&legacy("[]", bip9), String::new()), unexpected);
    }
}

#[test]
fn a_malformed_deployment_is_a_failure_to_deserialize_that_keeps_the_payload() {
    for member in [
        "1",
        "[]",
        "{}",
        "{\"status\":\"active\",\"startTime\":0,\"timeout\":1}",
        "{\"status\":\"active\",\"startTime\":0,\"since\":1}",
        "{\"status\":\"active\",\"timeout\":0,\"since\":1}",
        "{\"startTime\":0,\"timeout\":0,\"since\":1}",
        "{\"status\":\"Active\",\"startTime\":0,\"timeout\":1,\"since\":2}",
        "{\"status\":\"lockedin\",\"startTime\":0,\"timeout\":1,\"since\":2}",
        "{\"status\":3,\"startTime\":0,\"timeout\":1,\"since\":2}",
        "{\"status\":\"active\",\"startTime\":0.5,\"timeout\":1,\"since\":2}",
        "{\"status\":\"active\",\"startTime\":9223372036854775808,\"timeout\":1,\"since\":2}",
        "{\"status\":\"active\",\"startTime\":0,\"timeout\":-1,\"since\":2}",
        "{\"status\":\"active\",\"startTime\":0,\"timeout\":1,\"since\":4294967296}",
        "{\"status\":\"active\",\"bit\":256,\"startTime\":0,\"timeout\":1,\"since\":2}",
        "{\"status\":\"active\",\"bit\":-1,\"startTime\":0,\"timeout\":1,\"since\":2}",
        "{\"status\":\"active\",\"bit\":\"1\",\"startTime\":0,\"timeout\":1,\"since\":2}",
        "{\"status\":\"active\",\"startTime\":0,\"timeout\":1,\"since\":2,\"statistics\":7}",
        "{\"status\":\"active\",\"startTime\":0,\"timeout\":1,\"since\":2,\"statistics\":{}}",
        "{\"status\":\"active\",\"startTime\":0,\"timeout\":1,\"since\":2,\
\"statistics\":{\"period\":1,\"elapsed\":2,\"count\":3,\"possible\":1}}",
        "{\"status\":\"active\",\"startTime\":0,\"timeout\":1,\"since\":2,\
\"statistics\":{\"period\":1,\"elapsed\":2,\"count\":3,\"threshold\":\"4\"}}",
    ] {
        let old = legacy("[]", &format!("{{\"x\":{}}}", member));
        let payload = format!("{{\"softforks\":[],\"bip9_softforks\":{{\"x\":{}}}}}", member);
        assert_eq!(
            convert_legacy_softforks(&old, payload.clone()),
            Err(Error::ResponseSerdeJson {
                err: "a member of bip9_softforks is not a deployment".to_string(),
                text: payload,
            }),
            "{}",
            member
        );
    }
}

#[test]
fn a_malformed_element_of_the_array_comes_before_a_malformed_deployment() {
    assert_eq!(
        convert_legacy_softforks(&legacy("[{}]", "{\"x\":1}"), "payload".to_string()),
        Err(Error::BitcoinCoreRpcError(CoreError::UnexpectedStructure))
    );
}

#[test]
fn optional_members_may_be_missing_or_null() {
    let old = legacy(
        "[]",
        "{\"x\":{\"status\":\"failed\",\"bit\":null,\"startTime\":-5,\"timeout\":0,\"since\":4294967295,\
\"statistics\":null,\"more\":[1]},\
\"y\":{\"status\":\"defined\",\"bit\":255,\"startTime\":5,\"timeout\":18446744073709551615,\"since\":0,\
\"statistics\":{\"period\":0,\"threshold\":null,\"elapsed\":1,\"count\":2}}}",
    );
    let entries: HashMap<String, Softfork> =
        convert_legacy_softforks(&old, String::new()).unwrap().into_iter().collect();
    assert_eq!(
        entries["x"].bip9,
        Some(Bip9SoftforkInfo {
            status: Bip9SoftforkStatus::Failed,
            bit: None,
            start_time: -5,
            timeout: 0,
            since: 4294967295,
            statistics: None,
        })
    );
    assert_eq!(
        entries["y"].bip9,
        Some(Bip9SoftforkInfo {
            status: Bip9SoftforkStatus::Defined,
            bit: Some(255),
            start_time: 5,
            timeout: 18446744073709551615,
            since: 0,
            statistics: Some(Bip9SoftforkStatistics {
                period: 0,
                threshold: None,
                elapsed: 1,
                count: 2,
                possible: None,
            }),
        })
    );
}

#[test]
fn a_deployment_replaces_a_buried_rule_of_the_same_name() {
    let old = legacy(
        "[{\"id\":\"csv\",\"reject\":{\"status\":true}},{\"id\":\"csv\",\"reject\":{\"status\":false}}]",
        "{\"csv\":{\"status\":\"started\",\"startTime\":0,\"timeout\":1,\"since\":2}}",
    );
    let mut map: HashMap<String, Softfork> = HashMap::new();
    for (id, softfork) in convert_legacy_softforks(&old, String::new()).unwrap() {
        map.insert(id, softfork);
    }
    assert_eq!(map.len(), 1);
    assert_eq!(map["csv"].type_, SoftforkType::Bip9);
    assert!(!map["csv"].active);
}

#[test]
fn a_shadowed_member_of_the_old_object_is_not_read() {
    let old = LegacySoftforks {
        softforks: Json::Array(vec![]),
        bip9_softforks: Json::Object(vec![
            ("x".to_string(), Json::Null),
            (
                "x".to_string(),
                parse("{\"status\":\"active\",\"startTime\":0,\"timeout\":1,\"since\":2}").unwrap(),
            ),
        ]),
    };
    let entries = convert_legacy_softforks(&old, String::new()).unwrap();
    assert_eq!(entries.len(), 1);
    assert!(entries[0].1.active);
}

#[test]
fn buried_reads_one_element_of_the_array() {
    assert_eq!(
        Softfork::buried(&parse("{\"id\":\"bip65\",\"version\":4,\"reject\":{\"status\":true}}").unwrap()),
        Some(("bip65".to_string(), buried(true)))
    );
    assert_eq!(Softfork::buried(&Json::Null), None);
}
