use namada_exporter::config::{duration_or_default, HealthCheckConfig};
use namada_exporter::decimal::{parse_fixed, parse_integer};
use namada_exporter::derive::{
    process_network_metrics, process_node_metrics, process_validator_metrics_data, ValidatorStake,
    DeriveError, NodeStatus, PosParameters, ValidatorMetricsData, ValidatorData,
};
use namada_exporter::metrics::{LabelScope, NamadaMetrics, ValueKind};
use namada_exporter::rank::{rank_of, sort_position};
use namada_exporter::scrape::{derive_records, ScrapeError, ScrapeInputs};
use namada_exporter::state::ValidatorState;
use namada_exporter::uptime::uptime_percentage;

const UNIT: u128 = 1_000_000_000_000;

fn params() -> PosParameters {
    PosParameters {
        max_validator_slots: 100,
        liveness_window_check: 10000,
        liveness_threshold: "0.1".to_string(),
        validator_stake_threshold: "1000".to_string(),
        max_proposal_period: 27,
    }
}

fn status() -> NodeStatus {
    NodeStatus {
        latest_block: 1000,
        catching_up: false,
        chain_id: "chain-1".to_string(),
        node_id: "node-a".to_string(),
        moniker: "moniker-a".to_string(),
    }
}

fn validator_data(address: &str, stake: &str, missed: Option<u64>) -> ValidatorData {
    ValidatorData {
        address: address.to_string(),
        stake: stake.to_string(),
        commission_rate: Some("0.05".to_string()),
        address_hash: "HASH".to_string(),
        missed_blocks: missed,
        state: ValidatorState::ActiveConsensusSet,
    }
}

fn entry(address: &str, stake: &str) -> ValidatorStake {
    ValidatorStake { address: address.to_string(), stake: stake.to_string() }
}

fn inputs(address: &str, missed: Option<u64>) -> ScrapeInputs {
    ScrapeInputs {
        epoch: 42,
        status: status(),
        validator: validator_data(address, "50000", missed),
        consensus_set: vec![entry("tnam1a", "70000"), entry(address, "50000"), entry("tnam1c", "20000")],
        params: params(),
    }
}

fn value(m: &NamadaMetrics, k: usize) -> i64 {
    m.families()[k].series()[0].value
}

#[test]
fn state_numbers_cover_every_variant() {
    assert_eq!(ValidatorState::Unknown.number(), 0);
    assert_eq!(ValidatorState::ActiveConsensusSet.number(), 1);
    assert_eq!(ValidatorState::ActiveBelowCapacitySet.number(), 2);
    assert_eq!(ValidatorState::ActiveBelowThresholdSet.number(), 3);
    assert_eq!(ValidatorState::Jailed.number(), 4);
    assert_eq!(ValidatorState::Inactive.number(), 5);
}

#[test]
fn uptime_exact_values() {
    let t = UNIT / 10;
    assert_eq!(uptime_percentage(10000, t, 0), 100);
    assert_eq!(uptime_percentage(10000, t, 9000), 0);
    assert_eq!(uptime_percentage(10000, t, 900), 90);
    assert!(uptime_percentage(10000, t, 9500) < 0);
    assert_eq!(uptime_percentage(10000, t, 9500), -6);
    // 1 - 45/9000 = 99.5 % rounds away from zero
    assert_eq!(uptime_percentage(10000, t, 45), 100);
    assert_eq!(uptime_percentage(10000, t, 46), 99);
}

#[test]
fn rank_is_stable_and_one_based() {
    let addresses: Vec<String> = ["A", "B", "C", "D"].iter().map(|s| s.to_string()).collect();
    let stakes: Vec<u128> = vec![500, 300, 300, 100];
    assert_eq!(rank_of(&addresses, &stakes, &"A".to_string()), Some(1));
    assert_eq!(rank_of(&addresses, &stakes, &"B".to_string()), Some(2));
    assert_eq!(rank_of(&addresses, &stakes, &"C".to_string()), Some(3));
    assert_eq!(rank_of(&addresses, &stakes, &"D".to_string()), Some(4));
    assert_eq!(rank_of(&addresses, &stakes, &"E".to_string()), None);
    let unsorted: Vec<u128> = vec![100, 300, 500, 300];
    assert_eq!(sort_position(&unsorted, 0), 3);
    assert_eq!(sort_position(&unsorted, 1), 1);
    assert_eq!(sort_position(&unsorted, 2), 0);
    assert_eq!(sort_position(&unsorted, 3), 2);
}

#[test]
fn decimal_text_is_read_exactly() {
    assert_eq!(parse_integer("0"), Some(0));
    assert_eq!(parse_integer("50000"), Some(50000));
    assert_eq!(parse_integer(""), None);
    assert_eq!(parse_integer("12a"), None);
    assert_eq!(parse_integer("-5"), None);
    assert_eq!(parse_integer("340282366920938463463374607431768211455"), Some(u128::MAX));
    assert_eq!(parse_integer("340282366920938463463374607431768211456"), None);
    assert_eq!(parse_fixed("0.1"), Some(UNIT / 10));
    assert_eq!(parse_fixed("2"), Some(2 * UNIT));
    assert_eq!(parse_fixed("0.000000000001"), Some(1));
    assert_eq!(parse_fixed("0.0000000000001"), None);
    assert_eq!(parse_fixed(".5"), None);
    assert_eq!(parse_fixed("1."), None);
    assert_eq!(parse_fixed("1.2.3"), None);
}

#[test]
fn validator_record_values() {
    let d = process_validator_metrics_data(&params(), &validator_data("tnam1b", "50000", Some(900)), 2).unwrap();
    assert_eq!(d.namada_validator_uptime_percentage, 90);
    assert_eq!(d.namada_validator_state, 1);
    assert_eq!(d.namada_validator_active_set_rank, 2);
    assert_eq!(d.namada_missed_blocks, 900);
    assert_eq!(d.namada_total_bonds, 50000);
    assert_eq!(d.validator_commission_hundredths, 5);
    assert_eq!(d.validator_address_hash, "HASH");
}

#[test]
fn unknown_missed_blocks_give_sentinel_uptime() {
    let d = process_validator_metrics_data(&params(), &validator_data("tnam1b", "50000", None), 2).unwrap();
    assert_eq!(d.namada_validator_uptime_percentage, -1);
    assert_eq!(d.namada_missed_blocks, -1);
}

#[test]
fn commission_rounds_to_hundredths() {
    let mut s = validator_data("tnam1b", "1", None);
    s.commission_rate = Some("0.055".to_string());
    assert_eq!(process_validator_metrics_data(&params(), &s, 1).unwrap().validator_commission_hundredths, 6);
    s.commission_rate = Some("0.054".to_string());
    assert_eq!(process_validator_metrics_data(&params(), &s, 1).unwrap().validator_commission_hundredths, 5);
    s.commission_rate = Some("-0.05".to_string());
    assert_eq!(process_validator_metrics_data(&params(), &s, 1).unwrap().validator_commission_hundredths, 0);
}

#[test]
fn derivation_errors() {
    let mut p = params();
    p.liveness_window_check = 0;
    assert_eq!(
        process_validator_metrics_data(&p, &validator_data("a", "1", None), 1).err(),
        Some(DeriveError::InvalidLivenessParameters)
    );
    let mut p = params();
    p.liveness_threshold = "1".to_string();
    assert_eq!(
        process_validator_metrics_data(&p, &validator_data("a", "1", None), 1).err(),
        Some(DeriveError::InvalidLivenessParameters)
    );
    let mut s = validator_data("a", "1", None);
    s.commission_rate = None;
    assert_eq!(process_validator_metrics_data(&params(), &s, 1).err(), Some(DeriveError::MissingCommission));
    assert_eq!(
        process_validator_metrics_data(&params(), &validator_data("a", "x1", None), 1).err(),
        Some(DeriveError::MalformedAmount)
    );
    assert_eq!(
        process_validator_metrics_data(&params(), &validator_data("a", "9223372036854775808", None), 1).err(),
        Some(DeriveError::ValueOutOfRange)
    );
    assert_eq!(
        process_network_metrics(1, &status(), &vec![], &params()).err(),
        Some(DeriveError::EmptyConsensusSet)
    );
    let mut st = status();
    st.latest_block = u64::MAX;
    assert_eq!(process_node_metrics(&st).err(), Some(DeriveError::ValueOutOfRange));
}

#[test]
fn network_record_values() {
    let mut st = status();
    st.catching_up = true;
    let n = process_network_metrics(42, &st, &vec![70000, 50000, 20000], &params()).unwrap();
    assert_eq!(n.namada_network_epoch, 42);
    assert_eq!(n.namada_node_catch_up, 1);
    assert_eq!(n.namada_network_lowest_active_set_stake, 20000);
    assert_eq!(n.namada_network_max_set_size, 100);
    assert_eq!(n.namada_network_stake_threshold, 1000);
    assert_eq!(n.namada_network_active_set_size, 3);
}

#[test]
fn stake_threshold_is_truncated() {
    let mut p = params();
    p.validator_stake_threshold = "1000.5".to_string();
    let n = process_network_metrics(1, &status(), &vec![5], &p).unwrap();
    assert_eq!(n.namada_network_stake_threshold, 1000);
    p.validator_stake_threshold = "0.999999999999".to_string();
    let n = process_network_metrics(1, &status(), &vec![5], &p).unwrap();
    assert_eq!(n.namada_network_stake_threshold, 0);
    p.validator_stake_threshold = "abc".to_string();
    assert_eq!(process_network_metrics(1, &status(), &vec![5], &p).err(), Some(DeriveError::MalformedAmount));
}

#[test]
fn absent_validator_gets_sentinels() {
    let mut inp = inputs("tnam1b", Some(900));
    inp.consensus_set = vec![entry("tnam1a", "70000"), entry("tnam1c", "20000")];
    let r = derive_records(&"tnam1b".to_string(), &inp).unwrap();
    assert_eq!(r.validator.namada_validator_active_set_rank, -1);
    assert_eq!(r.validator.namada_validator_uptime_percentage, -1);
    assert_eq!(r.validator.namada_missed_blocks, -1);
    assert_eq!(r.validator.namada_total_bonds, -1);
    assert_eq!(r.validator.validator_commission_hundredths, 0);
    let d = ValidatorMetricsData::default();
    assert_eq!(d.namada_validator_active_set_rank, -1);
    assert_eq!(d.validator_commission_hundredths, 0);
}

#[test]
fn end_to_end_scrape() {
    let mut m = NamadaMetrics::create(String::new(), "tnam1b".to_string());
    assert_eq!(m.families().len(), 14);
    assert_eq!(m.families()[0].name(), "namada_validator_uptime_percentage");
    assert_eq!(m.families()[5].kind(), ValueKind::Hundredths);
    assert_eq!(m.families()[12].scope(), LabelScope::Node);
    assert_eq!(m.handle_scrape(Some(inputs("tnam1b", Some(900)))), Ok(()));
    assert_eq!(value(&m, 0), 90);
    assert_eq!(value(&m, 2), 2);
    assert_eq!(value(&m, 4), 50000);
    assert_eq!(value(&m, 11), 3);
    assert_eq!(value(&m, 12), 1000);
    assert_eq!(value(&m, 13), 1000);
    assert_eq!(m.chain_id(), "chain-1");
    let labels = &m.families()[0].series()[0].labels;
    assert_eq!(labels, &vec!["chain-1".to_string(), "tnam1b".to_string(), "HASH".to_string()]);
}

#[test]
fn failed_scrape_keeps_published_values() {
    let mut m = NamadaMetrics::create(String::new(), "tnam1b".to_string());
    assert_eq!(m.handle_scrape(Some(inputs("tnam1b", Some(900)))), Ok(()));
    assert_eq!(m.handle_scrape(None), Err(ScrapeError::QueryFailed));
    assert_eq!(value(&m, 0), 90);
    let mut bad = inputs("tnam1b", Some(0));
    bad.consensus_set = vec![];
    assert_eq!(m.handle_scrape(Some(bad)), Err(ScrapeError::Invalid(DeriveError::EmptyConsensusSet)));
    assert_eq!(value(&m, 0), 90);
    assert_eq!(value(&m, 11), 3);
}

#[test]
fn publishing_twice_keeps_layout() {
    let mut m = NamadaMetrics::create(String::new(), "tnam1b".to_string());
    m.handle_scrape(Some(inputs("tnam1b", Some(900)))).unwrap();
    let once: Vec<usize> = m.families().iter().map(|f| f.series().len()).collect();
    m.handle_scrape(Some(inputs("tnam1b", Some(0)))).unwrap();
    let twice: Vec<usize> = m.families().iter().map(|f| f.series().len()).collect();
    assert_eq!(once, twice);
    assert_eq!(value(&m, 0), 100);
    assert!(once.iter().all(|n| *n == 1));
}

#[test]
fn health_check_intervals() {
    let c = HealthCheckConfig {
        ping_url: "http://localhost".to_string(),
        ping_rate: "30s".to_string(),
        timeout: "not a duration".to_string(),
    };
    assert_eq!(c.ping_interval(), (30, 0));
    assert_eq!(c.timeout_duration(), (10, 0));
    let c2 = HealthCheckConfig { ping_url: String::new(), ping_rate: "1m 500ms".to_string(), timeout: "2s".to_string() };
    assert_eq!(c2.ping_interval(), (60, 500_000_000));
    assert_eq!(c2.timeout_duration(), (2, 0));
    let c3 = HealthCheckConfig {
        ping_url: String::new(),
        ping_rate: "18446744073709551615s 1000ms".to_string(),
        timeout: "1h 30m 15s".to_string(),
    };
    assert_eq!(c3.ping_interval(), (60, 0));
    assert_eq!(c3.timeout_duration(), (5415, 0));
    assert_eq!(duration_or_default(None, 7), (7, 0));
    assert_eq!(duration_or_default(Some((3, 4)), 7), (3, 4));
}
