//! Turning chain state into the values that are published.
use vstd::prelude::*;
use crate::decimal::{fixed_u128_value, parse_fixed, parse_integer, u128_value, UNIT};
use crate::state::{state_code, ValidatorState};
use crate::uptime::{clamp_i64, saturate_i64, uptime_percentage, uptime_value};

verus! {

/// Proof-of-stake parameters, as the chain reports them.
pub struct PosParameters {
    pub max_validator_slots: u64,
    /// Number of recent blocks over which missed blocks are counted.
    pub liveness_window_check: u64,
    /// Fraction of the window that must be signed, in decimal text.
    pub liveness_threshold: String,
    /// Least stake of an active validator, in decimal text.
    pub validator_stake_threshold: String,
    pub max_proposal_period: u64,
}

/// What the chain reports of the configured validator.
pub struct ValidatorData {
    pub address: String,
    /// Bonded stake, in decimal text.
    pub stake: String,
    /// Commission rate, in decimal text.
    pub commission_rate: Option<String>,
    pub address_hash: String,
    pub missed_blocks: Option<u64>,
    pub state: ValidatorState,
}

/// One member of the consensus set.
pub struct ValidatorStake {
    pub address: String,
    /// Bonded stake, in decimal text.
    pub stake: String,
}

/// What the node reports of itself.
pub struct NodeStatus {
    pub latest_block: u64,
    pub catching_up: bool,
    pub chain_id: String,
    pub node_id: String,
    pub moniker: String,
}

/// Why chain state could not be turned into metrics.
#[derive(Debug, Clone, Copy, PartialEq, Eq, Structural)]
pub enum DeriveError {
    /// Empty liveness window, or a threshold that is not a decimal below one.
    InvalidLivenessParameters,
    /// The validator has no commission rate.
    MissingCommission,
    /// An amount is not a decimal integer that fits in 128 bits.
    MalformedAmount,
    /// The consensus set is empty.
    EmptyConsensusSet,
    /// A value does not fit the published integer type.
    ValueOutOfRange,
}

/// Validator-scoped values, ready to publish; `-1` stands for unknown.
pub struct ValidatorMetricsData {
    pub namada_validator_uptime_percentage: i64,
    pub namada_validator_state: i64,
    pub namada_validator_active_set_rank: i64,
    pub namada_missed_blocks: i64,
    pub namada_total_bonds: i64,
    /// Commission rate in hundredths; published as `value / 100`.
    pub validator_commission_hundredths: i64,
    pub validator_address_hash: String,
}

/// Network-scoped values, ready to publish.
pub struct NetworkMetricsData {
    pub namada_network_epoch: i64,
    pub namada_node_catch_up: i64,
    pub namada_network_lowest_active_set_stake: i64,
    pub namada_network_max_set_size: i64,
    pub namada_network_stake_threshold: i64,
    pub namada_network_active_set_size: i64,
}

/// Node-scoped values, ready to publish.
pub struct NodeMetricsData {
    pub namada_node_latest_block: i64,
    pub node_id: String,
    pub moniker: String,
}

/// The liveness threshold in fixed-point units, when the parameters describe
/// a non-empty window and a threshold below one.
pub open spec fn valid_threshold(p: PosParameters) -> Option<u128> {
    match fixed_u128_value(p.liveness_threshold@) {
        Some(t) => if p.liveness_window_check > 0 && t < UNIT {
            Some(t)
        } else {
            None
        },
        None => None,
    }
}

/// Published uptime: `-1` when no missed-block count is known.
pub open spec fn published_uptime(window: u64, threshold: u128, missed: Option<u64>) -> i64 {
    match missed {
        Some(m) => clamp_i64(uptime_value(window as nat, threshold as nat, m as nat)),
        None => -1i64,
    }
}

/// Commission in hundredths, rounded half up; `0`, the unknown sentinel,
/// when the text is not a decimal.
pub open spec fn commission_hundredths(rate: Seq<char>) -> int {
    match fixed_u128_value(rate) {
        Some(u) => (u as int + 5_000_000_000) / 10_000_000_000,
        None => 0,
    }
}

pub open spec fn fits_i64(v: int) -> bool {
    v <= i64::MAX
}

/// The validator record for a validator placed `rank` in the consensus set.
pub open spec fn validator_record(p: PosParameters, v: ValidatorData, rank: u64) -> Result<
    ValidatorMetricsData,
    DeriveError,
> {
    match valid_threshold(p) {
        None => Err(DeriveError::InvalidLivenessParameters),
        Some(t) => match v.commission_rate {
            None => Err(DeriveError::MissingCommission),
            Some(rate) => match u128_value(v.stake@) {
                None => Err(DeriveError::MalformedAmount),
                Some(bonds) => {
                    let missed: int = match v.missed_blocks {
                        Some(m) => m as int,
                        None => -1,
                    };
                    let commission = commission_hundredths(rate@);
                    if !fits_i64(bonds as int) || !fits_i64(rank as int) || !fits_i64(missed)
                        || !fits_i64(commission) {
                        Err(DeriveError::ValueOutOfRange)
                    } else {
                        Ok(
                            ValidatorMetricsData {
                                namada_validator_uptime_percentage: published_uptime(
                                    p.liveness_window_check,
                                    t,
                                    v.missed_blocks,
                                ),
                                namada_validator_state: state_code(v.state) as i64,
                                namada_validator_active_set_rank: rank as i64,
                                namada_missed_blocks: missed as i64,
                                namada_total_bonds: bonds as i64,
                                validator_commission_hundredths: commission as i64,
                                validator_address_hash: v.address_hash,
                            },
                        )
                    }
                },
            },
        },
    }
}

/// The record of a validator that is not in the consensus set: every value
/// unknown, commission zero.
pub open spec fn absent_record(hash: String) -> ValidatorMetricsData {
    ValidatorMetricsData {
        namada_validator_uptime_percentage: -1i64,
        namada_validator_state: -1i64,
        namada_validator_active_set_rank: -1i64,
        namada_missed_blocks: -1i64,
        namada_total_bonds: -1i64,
        validator_commission_hundredths: 0i64,
        validator_address_hash: hash,
    }
}

impl ValidatorMetricsData {
    /// Every value unknown, commission zero, no key hash.
    pub fn default() -> (r: Self)
        ensures
            r.namada_validator_uptime_percentage == -1,
            r.namada_validator_state == -1,
            r.namada_validator_active_set_rank == -1,
            r.namada_missed_blocks == -1,
            r.namada_total_bonds == -1,
            r.validator_commission_hundredths == 0,
            r.validator_address_hash@ == Seq::<char>::empty(),
    {
        ValidatorMetricsData {
            namada_validator_uptime_percentage: -1,
            namada_validator_state: -1,
            namada_validator_active_set_rank: -1,
            namada_missed_blocks: -1,
            namada_total_bonds: -1,
            validator_commission_hundredths: 0,
            validator_address_hash: String::new(),
        }
    }
}

fn round_commission(units: u128) -> (r: u128)
    ensures
        r == (units as int + 5_000_000_000) / 10_000_000_000,
{
    let half: u128 = UNIT / 200;
    if units > u128::MAX - half {
        // the sum does not fit: divide the parts
        let q = units / (UNIT / 100);
        let rem = units % (UNIT / 100);
        proof {
            vstd::arithmetic::div_mod::lemma_fundamental_div_mod(units as int, (UNIT / 100) as int);
        }
        if rem + half >= UNIT / 100 {
            assert((units as int + 5_000_000_000) / 10_000_000_000 == q + 1) by (nonlinear_arith)
                requires
                    units == (UNIT / 100) * q + rem,
                    rem < UNIT / 100,
                    rem + UNIT / 200 >= UNIT / 100,
                    UNIT / 100 == 10_000_000_000,
                    UNIT / 200 == 5_000_000_000,
            ;
            q + 1
        } else {
            assert((units as int + 5_000_000_000) / 10_000_000_000 == q) by (nonlinear_arith)
                requires
                    units == (UNIT / 100) * q + rem,
                    rem + UNIT / 200 < UNIT / 100,
                    UNIT / 100 == 10_000_000_000,
                    UNIT / 200 == 5_000_000_000,
            ;
            q
        }
    } else {
        (units + half) / (UNIT / 100)
    }
}

/// Validator-scoped values for a validator placed `rank` in the consensus
/// set.
pub fn process_validator_metrics_data(params: &PosParameters, data: &ValidatorData, rank: u64) -> (r:
    Result<ValidatorMetricsData, DeriveError>)
    ensures
        r == validator_record(*params, *data, rank),
{
    let threshold = match parse_fixed(params.liveness_threshold.as_str()) {
        Some(t) => {
            if params.liveness_window_check == 0 || t >= UNIT {
                return Err(DeriveError::InvalidLivenessParameters);
            }
            t
        },
        None => {
            return Err(DeriveError::InvalidLivenessParameters);
        },
    };
    let rate = match &data.commission_rate {
        Some(rate) => rate,
        None => {
            return Err(DeriveError::MissingCommission);
        },
    };
    let bonds = match parse_integer(data.stake.as_str()) {
        Some(b) => b,
        None => {
            return Err(DeriveError::MalformedAmount);
        },
    };
    let commission: i128 = match parse_fixed(rate.as_str()) {
        Some(u) => {
            let c = round_commission(u);
            if c > i64::MAX as u128 {
                return Err(DeriveError::ValueOutOfRange);
            }
            c as i128
        },
        None => 0,
    };
    if bonds > i64::MAX as u128 || rank > i64::MAX as u64 {
        return Err(DeriveError::ValueOutOfRange);
    }
    let (uptime, missed): (i64, i64) = match data.missed_blocks {
        Some(m) => {
            if m > i64::MAX as u64 {
                return Err(DeriveError::ValueOutOfRange);
            }
            (saturate_i64(uptime_percentage(params.liveness_window_check, threshold, m)), m as i64)
        },
        None => (-1, -1),
    };
    Ok(
        ValidatorMetricsData {
            namada_validator_uptime_percentage: uptime,
            namada_validator_state: data.state.number() as i64,
            namada_validator_active_set_rank: rank as i64,
            namada_missed_blocks: missed,
            namada_total_bonds: bonds as i64,
            validator_commission_hundredths: commission as i64,
            validator_address_hash: data.address_hash.clone(),
        },
    )
}

/// The smallest stake.
pub open spec fn seq_min(s: Seq<u128>) -> u128
    decreases s.len(),
{
    if s.len() <= 1 {
        s[0]
    } else {
        let m = seq_min(s.drop_last());
        if s.last() < m {
            s.last()
        } else {
            m
        }
    }
}

/// The lowest stake is one of the stakes, and no stake is lower.
pub proof fn lemma_seq_min_is_least(s: Seq<u128>)
    requires
        s.len() > 0,
    ensures
        exists|i: int| 0 <= i < s.len() && s[i] == seq_min(s),
        forall|j: int| 0 <= j < s.len() ==> seq_min(s) <= s[j],
    decreases s.len(),
{
    if s.len() > 1 {
        let t = s.drop_last();
        lemma_seq_min_is_least(t);
        let i = choose|i: int| 0 <= i < t.len() && t[i] == seq_min(t);
        assert(s[i] == t[i]);
        assert forall|j: int| 0 <= j < s.len() implies seq_min(s) <= s[j] by {
            if j < t.len() {
                assert(s[j] == t[j]);
            }
        }
    } else {
        assert(s[0] == seq_min(s));
    }
}

/// The stake threshold truncated to a whole number, when its text is a
/// decimal.
pub open spec fn stake_threshold(p: PosParameters) -> Option<u128> {
    match fixed_u128_value(p.validator_stake_threshold@) {
        Some(t) => Some((t / UNIT) as u128),
        None => None,
    }
}

/// The network record for the consensus set whose stakes are `stakes`.
pub open spec fn network_record(epoch: u64, status: NodeStatus, stakes: Seq<u128>, p: PosParameters) -> Result<
    NetworkMetricsData,
    DeriveError,
> {
    if stakes.len() == 0 {
        Err(DeriveError::EmptyConsensusSet)
    } else {
        match stake_threshold(p) {
            None => Err(DeriveError::MalformedAmount),
            Some(threshold) => if !fits_i64(epoch as int) || !fits_i64(seq_min(stakes) as int) || !fits_i64(
                p.max_validator_slots as int,
            ) || !fits_i64(threshold as int) || !fits_i64(stakes.len() as int) {
                Err(DeriveError::ValueOutOfRange)
            } else {
                Ok(
                    NetworkMetricsData {
                        namada_network_epoch: epoch as i64,
                        namada_node_catch_up: if status.catching_up {
                            1
                        } else {
                            0
                        },
                        namada_network_lowest_active_set_stake: seq_min(stakes) as i64,
                        namada_network_max_set_size: p.max_validator_slots as i64,
                        namada_network_stake_threshold: threshold as i64,
                        namada_network_active_set_size: stakes.len() as i64,
                    },
                )
            },
        }
    }
}

fn lowest_stake(stakes: &Vec<u128>) -> (r: u128)
    requires
        stakes@.len() > 0,
    ensures
        r == seq_min(stakes@),
{
    let mut low = stakes[0];
    let mut i: usize = 1;
    while i < stakes.len()
        invariant
            1 <= i <= stakes@.len(),
            low == seq_min(stakes@.take(i as int)),
        decreases stakes@.len() - i,
    {
        proof {
            assert(stakes@.take(i + 1).drop_last() =~= stakes@.take(i as int));
        }
        if stakes[i] < low {
            low = stakes[i];
        }
        i = i + 1;
    }
    proof {
        assert(stakes@.take(i as int) =~= stakes@);
    }
    low
}

/// Network-scoped values from the epoch, the node's status, the stakes of
/// the consensus set and the parameters.
pub fn process_network_metrics(epoch: u64, status: &NodeStatus, stakes: &Vec<u128>, params: &PosParameters) -> (r:
    Result<NetworkMetricsData, DeriveError>)
    ensures
        r == network_record(epoch, *status, stakes@, *params),
{
    if stakes.len() == 0 {
        return Err(DeriveError::EmptyConsensusSet);
    }
    let threshold = match parse_fixed(params.validator_stake_threshold.as_str()) {
        Some(t) => t / UNIT,
        None => {
            return Err(DeriveError::MalformedAmount);
        },
    };
    let lowest = lowest_stake(stakes);
    if epoch > i64::MAX as u64 || lowest > i64::MAX as u128 || params.max_validator_slots > i64::MAX as u64
        || threshold > i64::MAX as u128 || stakes.len() as u128 > i64::MAX as u128 {
        return Err(DeriveError::ValueOutOfRange);
    }
    Ok(
        NetworkMetricsData {
            namada_network_epoch: epoch as i64,
            namada_node_catch_up: if status.catching_up {
                1
            } else {
                0
            },
            namada_network_lowest_active_set_stake: lowest as i64,
            namada_network_max_set_size: params.max_validator_slots as i64,
            namada_network_stake_threshold: threshold as i64,
            namada_network_active_set_size: stakes.len() as i64,
        },
    )
}

/// The node record.
pub open spec fn node_record(status: NodeStatus) -> Result<NodeMetricsData, DeriveError> {
    if !fits_i64(status.latest_block as int) {
        Err(DeriveError::ValueOutOfRange)
    } else {
        Ok(
            NodeMetricsData {
                namada_node_latest_block: status.latest_block as i64,
                node_id: status.node_id,
                moniker: status.moniker,
            },
        )
    }
}

/// Node-scoped values, passed through from the node's status.
pub fn process_node_metrics(status: &NodeStatus) -> (r: Result<NodeMetricsData, DeriveError>)
    ensures
        r == node_record(*status),
{
    if status.latest_block > i64::MAX as u64 {
        return Err(DeriveError::ValueOutOfRange);
    }
    Ok(
        NodeMetricsData {
            namada_node_latest_block: status.latest_block as i64,
            node_id: status.node_id.clone(),
            moniker: status.moniker.clone(),
        },
    )
}

/// The stakes of the consensus set, when each is a decimal integer that
/// fits in 128 bits.
pub open spec fn entry_stakes(entries: Seq<ValidatorStake>) -> Option<Seq<u128>> {
    if forall|i: int| 0 <= i < entries.len() ==> (#[trigger] u128_value(entries[i].stake@)).is_some() {
        Some(Seq::new(entries.len(), |i: int| u128_value(entries[i].stake@).unwrap()))
    } else {
        None
    }
}

/// Reads the stake of each member of the consensus set.
pub fn parse_stakes(entries: &Vec<ValidatorStake>) -> (r: Result<Vec<u128>, DeriveError>)
    ensures
        r matches Ok(v) ==> entry_stakes(entries@) == Some(v@),
        r matches Err(e) ==> entry_stakes(entries@).is_none() && e == DeriveError::MalformedAmount,
{
    let mut out: Vec<u128> = Vec::new();
    let mut i: usize = 0;
    while i < entries.len()
        invariant
            i <= entries@.len(),
            out@.len() == i,
            forall|j: int| 0 <= j < i ==> u128_value(entries@[j].stake@) == Some(#[trigger] out@[j]),
        decreases entries@.len() - i,
    {
        match parse_integer(entries[i].stake.as_str()) {
            Some(v) => {
                out.push(v);
            },
            None => {
                return Err(DeriveError::MalformedAmount);
            },
        }
        i = i + 1;
    }
    proof {
        assert(forall|j: int| 0 <= j < entries@.len() ==> (#[trigger] u128_value(entries@[j].stake@)).is_some())
            by {
            assert forall|j: int| 0 <= j < entries@.len() implies (#[trigger] u128_value(
                entries@[j].stake@,
            )).is_some() by {
                assert(u128_value(entries@[j].stake@) == Some(out@[j]));
            }
        }
        assert(out@ =~= Seq::new(entries@.len(), |j: int| u128_value(entries@[j].stake@).unwrap()));
    }
    Ok(out)
}

} // verus!
