//! One scrape: derive every record from the chain state gathered for it,
//! then publish all of them, or none.
use vstd::prelude::*;
use crate::derive::{
    absent_record, entry_stakes, network_record, node_record, parse_stakes, process_network_metrics,
    process_node_metrics, process_validator_metrics_data, validator_record, ValidatorStake, DeriveError,
    NetworkMetricsData, NodeMetricsData, NodeStatus, PosParameters, ValidatorMetricsData, ValidatorData,
};
use crate::metrics::{
    apply_all, keys_unique, lemma_with_value_idempotent, lemma_with_value_same_keys, network_update, node_update,
    validator_update, MetricsView, NamadaMetrics,
};
use crate::rank::{is_rank_of, rank_of};

verus! {

/// The chain state gathered by one scrape, all at one epoch.
pub struct ScrapeInputs {
    pub epoch: u64,
    pub status: NodeStatus,
    pub validator: ValidatorData,
    pub consensus_set: Vec<ValidatorStake>,
    pub params: PosParameters,
}

/// The three records derived by one scrape.
pub struct ScrapeRecords {
    pub validator: ValidatorMetricsData,
    pub network: NetworkMetricsData,
    pub node: NodeMetricsData,
}

/// Why a scrape published nothing.
#[derive(Debug, Clone, Copy, PartialEq, Eq, Structural)]
pub enum ScrapeError {
    /// A query to the chain failed.
    QueryFailed,
    /// The chain state could not be turned into metrics.
    Invalid(DeriveError),
}

pub open spec fn entry_addresses(entries: Seq<ValidatorStake>) -> Seq<Seq<char>> {
    entries.map_values(|e: ValidatorStake| e.address@)
}

/// The records of one scrape for the validator at `address`: a validator that
/// is not in the consensus set gets the record of unknowns.
pub open spec fn scrape_records(address: Seq<char>, inp: ScrapeInputs) -> Result<ScrapeRecords, DeriveError> {
    match entry_stakes(inp.consensus_set@) {
        None => Err(DeriveError::MalformedAmount),
        Some(stakes) => match network_record(inp.epoch, inp.status, stakes, inp.params) {
            Err(e) => Err(e),
            Ok(network) => match node_record(inp.status) {
                Err(e) => Err(e),
                Ok(node) => {
                    let addresses = entry_addresses(inp.consensus_set@);
                    if exists|r: int| is_rank_of(addresses, stakes, address, r) {
                        let r = choose|r: int| is_rank_of(addresses, stakes, address, r);
                        match validator_record(inp.params, inp.validator, r as u64) {
                            Err(e) => Err(e),
                            Ok(validator) => Ok(ScrapeRecords { validator, network, node }),
                        }
                    } else {
                        Ok(
                            ScrapeRecords {
                                validator: absent_record(inp.validator.address_hash),
                                network,
                                node,
                            },
                        )
                    }
                },
            },
        },
    }
}

proof fn lemma_rank_unique(addresses: Seq<Seq<char>>, s: Seq<u128>, address: Seq<char>, a: int, b: int)
    requires
        is_rank_of(addresses, s, address, a),
        is_rank_of(addresses, s, address, b),
    ensures
        a == b,
{
    let i = choose|i: int| 0 <= i < s.len() && addresses[i] == address && a == crate::rank::sorted_position(s, i) + 1;
    let j = choose|j: int| 0 <= j < s.len() && addresses[j] == address && b == crate::rank::sorted_position(s, j) + 1;
    assert(b <= a);
    assert(a <= b);
}

/// Derives the three records of one scrape for the validator at `address`.
pub fn derive_records(address: &String, inputs: &ScrapeInputs) -> (r: Result<ScrapeRecords, DeriveError>)
    ensures
        r == scrape_records(address@, *inputs),
{
    let stakes = match parse_stakes(&inputs.consensus_set) {
        Ok(s) => s,
        Err(e) => {
            return Err(e);
        },
    };
    let network = match process_network_metrics(inputs.epoch, &inputs.status, &stakes, &inputs.params) {
        Ok(n) => n,
        Err(e) => {
            return Err(e);
        },
    };
    let node = match process_node_metrics(&inputs.status) {
        Ok(n) => n,
        Err(e) => {
            return Err(e);
        },
    };
    let mut addresses: Vec<String> = Vec::new();
    let mut i: usize = 0;
    while i < inputs.consensus_set.len()
        invariant
            i <= inputs.consensus_set@.len(),
            addresses@.len() == i,
            forall|j: int| 0 <= j < i ==> (#[trigger] addresses@[j])@ == inputs.consensus_set@[j].address@,
        decreases inputs.consensus_set@.len() - i,
    {
        addresses.push(inputs.consensus_set[i].address.clone());
        i = i + 1;
    }
    let ghost names = addresses@.map_values(|a: String| a@);
    proof {
        assert(names =~= entry_addresses(inputs.consensus_set@));
    }
    match rank_of(&addresses, &stakes, address) {
        Some(k) => {
            proof {
                assert(is_rank_of(names, stakes@, address@, k as int));
                let c = choose|r: int| is_rank_of(names, stakes@, address@, r);
                lemma_rank_unique(names, stakes@, address@, c, k as int);
            }
            match process_validator_metrics_data(&inputs.params, &inputs.validator, k as u64) {
                Ok(validator) => Ok(ScrapeRecords { validator, network, node }),
                Err(e) => Err(e),
            }
        },
        None => {
            proof {
                assert forall|r: int| !is_rank_of(names, stakes@, address@, r) by {
                    if is_rank_of(names, stakes@, address@, r) {
                        let j = choose|j: int| 0 <= j < stakes@.len() && names[j] == address@ && r
                            == crate::rank::sorted_position(stakes@, j) + 1;
                        assert(addresses@[j]@ != address@);
                    }
                }
            }
            let mut validator = ValidatorMetricsData::default();
            validator.validator_address_hash = inputs.validator.address_hash.clone();
            Ok(ScrapeRecords { validator, network, node })
        },
    }
}

/// What one scrape's records set in family `k`.
pub open spec fn scrape_update(chain: Seq<char>, tm: Seq<char>, recs: ScrapeRecords) -> spec_fn(int) -> Option<
    (Seq<Seq<char>>, i64),
> {
    |k: int|
        if k < 6 {
            validator_update(chain, tm, recs.validator)(k)
        } else if k < 12 {
            network_update(chain, recs.network)(k)
        } else {
            node_update(chain, recs.node)(k)
        }
}

/// The registry after publishing one scrape's records under `chain`.
pub open spec fn published(m: MetricsView, chain: Seq<char>, recs: ScrapeRecords) -> MetricsView {
    MetricsView {
        chain_id: chain,
        tm_address: m.tm_address,
        families: apply_all(m.families, scrape_update(chain, m.tm_address, recs)),
    }
}

impl NamadaMetrics {
    /// Publishes the records of one scrape, labelled with the chain id of
    /// that scrape, ranking the validator at the registry's address.
    /// `outcome` is `None` when a query failed; on any failure nothing is
    /// published.
    pub fn handle_scrape(&mut self, outcome: Option<ScrapeInputs>) -> (r: Result<(), ScrapeError>)
        requires
            old(self).wf(),
        ensures
            final(self).wf(),
            match outcome {
                None => r == Err::<(), ScrapeError>(ScrapeError::QueryFailed) && final(self)@ == old(self)@,
                Some(inp) => match scrape_records(old(self)@.tm_address, inp) {
                    Err(e) => r == Err::<(), ScrapeError>(ScrapeError::Invalid(e)) && final(self)@ == old(self)@,
                    Ok(recs) => r == Ok::<(), ScrapeError>(()) && final(self)@ == published(
                        old(self)@,
                        inp.status.chain_id@,
                        recs,
                    ),
                },
            },
    {
        let inputs = match outcome {
            Some(inputs) => inputs,
            None => {
                return Err(ScrapeError::QueryFailed);
            },
        };
        let records = match derive_records(self.tm_address(), &inputs) {
            Ok(records) => records,
            Err(e) => {
                return Err(ScrapeError::Invalid(e));
            },
        };
        let ghost m0 = self@;
        self.set_chain_id(inputs.status.chain_id.clone());
        self.set_validator_metrics(&records.validator);
        self.set_network_metrics(&records.network);
        self.set_node_metrics(&records.node);
        proof {
            assert(self@.families =~= published(m0, inputs.status.chain_id@, records).families);
        }
        Ok(())
    }
}

/// Publishing the same records twice gives the registry that publishing them
/// once gives.
pub proof fn lemma_publish_idempotent(m: MetricsView, chain: Seq<char>, recs: ScrapeRecords)
    requires
        forall|k: int| 0 <= k < m.families.len() ==> keys_unique(#[trigger] m.families[k].series),
    ensures
        published(published(m, chain, recs), chain, recs) == published(m, chain, recs),
{
    let once = published(m, chain, recs);
    let u = scrape_update(chain, m.tm_address, recs);
    assert forall|k: int| 0 <= k < m.families.len() implies #[trigger] apply_all(once.families, u)[k]
        == once.families[k] by {
        match u(k) {
            Some((key, v)) => {
                lemma_with_value_idempotent(m.families[k].series, key, v);
            },
            None => {},
        }
    }
    assert(apply_all(once.families, u) =~= once.families);
}

/// Publishing records that differ only in their values gives registries
/// that differ only in values: the same families with the same names, help
/// texts and kinds, and the same label tuples in the same order.
pub proof fn lemma_publish_same_layout(m: MetricsView, chain: Seq<char>, a: ScrapeRecords, b: ScrapeRecords)
    requires
        a.validator.validator_address_hash@ == b.validator.validator_address_hash@,
        a.node.node_id@ == b.node.node_id@,
        a.node.moniker@ == b.node.moniker@,
    ensures
        ({
            let pa = published(m, chain, a).families;
            let pb = published(m, chain, b).families;
            &&& pa.len() == pb.len()
            &&& forall|k: int| 0 <= k < pa.len() ==> {
                &&& (#[trigger] pa[k]).name == pb[k].name
                &&& pa[k].help == pb[k].help
                &&& pa[k].scope == pb[k].scope
                &&& pa[k].kind == pb[k].kind
                &&& pa[k].series.len() == pb[k].series.len()
                &&& forall|i: int| 0 <= i < pa[k].series.len() ==> #[trigger] pa[k].series[i].0 == pb[k].series[i].0
            }
        }),
{
    let pa = published(m, chain, a).families;
    let pb = published(m, chain, b).families;
    let ua = scrape_update(chain, m.tm_address, a);
    let ub = scrape_update(chain, m.tm_address, b);
    assert forall|k: int| 0 <= k < pa.len() implies {
        &&& (#[trigger] pa[k]).name == pb[k].name
        &&& pa[k].help == pb[k].help
        &&& pa[k].scope == pb[k].scope
        &&& pa[k].kind == pb[k].kind
        &&& pa[k].series.len() == pb[k].series.len()
        &&& forall|i: int| 0 <= i < pa[k].series.len() ==> #[trigger] pa[k].series[i].0 == pb[k].series[i].0
    } by {
        match (ua(k), ub(k)) {
            (Some((ka, va)), Some((kb, vb))) => {
                assert(ka == kb);
                lemma_with_value_same_keys(m.families[k].series, ka, va, vb);
            },
            _ => {},
        }
    }
}

/// A validator outside the consensus set is published with rank, uptime,
/// missed blocks and bonds unknown (`-1`) and a zero commission.
pub proof fn lemma_absent_validator_sentinels(address: Seq<char>, inp: ScrapeInputs)
    requires
        forall|i: int| 0 <= i < inp.consensus_set@.len() ==> inp.consensus_set@[i].address@ != address,
        scrape_records(address, inp) is Ok,
    ensures
        ({
            let v = scrape_records(address, inp)->Ok_0.validator;
            &&& v.namada_validator_active_set_rank == -1
            &&& v.namada_validator_uptime_percentage == -1
            &&& v.namada_missed_blocks == -1
            &&& v.namada_total_bonds == -1
            &&& v.validator_commission_hundredths == 0
        }),
{
    let stakes = entry_stakes(inp.consensus_set@)->Some_0;
    let addresses = entry_addresses(inp.consensus_set@);
    assert forall|r: int| !is_rank_of(addresses, stakes, address, r) by {
        if is_rank_of(addresses, stakes, address, r) {
            let j = choose|j: int| 0 <= j < stakes.len() && addresses[j] == address && r
                == crate::rank::sorted_position(stakes, j) + 1;
            assert(addresses[j] == inp.consensus_set@[j].address@);
        }
    }
}

} // verus!
