//! The metric registry: one gauge family per published name, each mapping a
//! tuple of label values to the value last set for it.
use vstd::prelude::*;
use crate::derive::{NetworkMetricsData, NodeMetricsData, ValidatorMetricsData};

verus! {

/// Which labels a family's series carry.
#[derive(Debug, Clone, Copy, PartialEq, Eq, Structural)]
pub enum LabelScope {
    /// chain id, validator address, consensus key hash
    Validator,
    /// chain id
    Network,
    /// chain id, node id, moniker
    Node,
}

impl LabelScope {
    /// The names of the labels, in the order of a series' label values.
    pub fn label_names(&self) -> (r: Vec<String>)
        ensures
            labels_view(r@) == (match *self {
                LabelScope::Validator => seq!["chain_id"@, "validator_tm_address"@, "validator_hash_address"@],
                LabelScope::Network => seq!["chain_id"@],
                LabelScope::Node => seq!["chain_id"@, "node_id"@, "moniker"@],
            }),
    {
        let mut r: Vec<String> = Vec::new();
        r.push(String::from_str("chain_id"));
        match self {
            LabelScope::Validator => {
                r.push(String::from_str("validator_tm_address"));
                r.push(String::from_str("validator_hash_address"));
            },
            LabelScope::Network => {},
            LabelScope::Node => {
                r.push(String::from_str("node_id"));
                r.push(String::from_str("moniker"));
            },
        }
        proof {
            assert(labels_view(r@) =~= (match *self {
                LabelScope::Validator => seq!["chain_id"@, "validator_tm_address"@, "validator_hash_address"@],
                LabelScope::Network => seq!["chain_id"@],
                LabelScope::Node => seq!["chain_id"@, "node_id"@, "moniker"@],
            }));
        }
        r
    }
}

/// How a stored integer is published.
#[derive(Debug, Clone, Copy, PartialEq, Eq, Structural)]
pub enum ValueKind {
    /// As it is.
    Integer,
    /// Divided by one hundred.
    Hundredths,
}

/// One labelled gauge of a family.
pub struct Series {
    pub labels: Vec<String>,
    pub value: i64,
}

/// A gauge family: a name, a help text, and its series in the order in
/// which their label tuples were first set.
pub struct GaugeFamily {
    name: String,
    help: String,
    scope: LabelScope,
    kind: ValueKind,
    series: Vec<Series>,
}

pub struct FamilyView {
    pub name: Seq<char>,
    pub help: Seq<char>,
    pub scope: LabelScope,
    pub kind: ValueKind,
    pub series: Seq<(Seq<Seq<char>>, i64)>,
}

pub open spec fn labels_view(l: Seq<String>) -> Seq<Seq<char>> {
    l.map_values(|s: String| s@)
}

pub open spec fn series_view(v: Seq<Series>) -> Seq<(Seq<Seq<char>>, i64)> {
    v.map_values(|x: Series| (labels_view(x.labels@), x.value))
}

impl View for GaugeFamily {
    type V = FamilyView;

    closed spec fn view(&self) -> FamilyView {
        FamilyView {
            name: self.name@,
            help: self.help@,
            scope: self.scope,
            kind: self.kind,
            series: series_view(self.series@),
        }
    }
}

/// No label tuple occurs twice.
pub open spec fn keys_unique(s: Seq<(Seq<Seq<char>>, i64)>) -> bool {
    forall|i: int, j: int| 0 <= i < j < s.len() ==> s[i].0 != s[j].0
}

/// The series after setting `key` to `v`: an existing series is overwritten
/// in place, a new one is appended.
pub open spec fn with_value(s: Seq<(Seq<Seq<char>>, i64)>, key: Seq<Seq<char>>, v: i64) -> Seq<
    (Seq<Seq<char>>, i64),
> {
    if exists|i: int| 0 <= i < s.len() && s[i].0 == key {
        let i = choose|i: int| 0 <= i < s.len() && s[i].0 == key;
        s.update(i, (key, v))
    } else {
        s.push((key, v))
    }
}

/// A family after an optional set.
pub open spec fn apply_update(f: FamilyView, u: Option<(Seq<Seq<char>>, i64)>) -> FamilyView {
    match u {
        Some((key, v)) => FamilyView { series: with_value(f.series, key, v), ..f },
        None => f,
    }
}

/// The families after setting, in each family `k`, what `u(k)` gives.
pub open spec fn apply_all(
    fams: Seq<FamilyView>,
    u: spec_fn(int) -> Option<(Seq<Seq<char>>, i64)>,
) -> Seq<FamilyView> {
    Seq::new(fams.len(), |k: int| apply_update(fams[k], u(k)))
}

proof fn lemma_with_value_unique(s: Seq<(Seq<Seq<char>>, i64)>, key: Seq<Seq<char>>, v: i64)
    requires
        keys_unique(s),
    ensures
        keys_unique(with_value(s, key, v)),
        forall|i: int| 0 <= i < s.len() && s[i].0 == key ==> with_value(s, key, v) == s.update(i, (key, v)),
{
    if exists|i: int| 0 <= i < s.len() && s[i].0 == key {
        let c = choose|i: int| 0 <= i < s.len() && s[i].0 == key;
        assert forall|i: int| 0 <= i < s.len() && s[i].0 == key implies with_value(s, key, v) == s.update(
            i,
            (key, v),
        ) by {
            if i < c {
                assert(s[i].0 != s[c].0);
            } else if i > c {
                assert(s[c].0 != s[i].0);
            }
        }
        let t = s.update(c, (key, v));
        assert forall|i: int, j: int| 0 <= i < j < t.len() implies t[i].0 != t[j].0 by {
            assert(s[i].0 != s[j].0);
        }
    } else {
        let t = s.push((key, v));
        assert forall|i: int, j: int| 0 <= i < j < t.len() implies t[i].0 != t[j].0 by {
            if j < s.len() {
                assert(s[i].0 != s[j].0);
            } else {
                assert(t[i] == s[i]);
            }
        }
    }
}

/// Setting the same value twice is setting it once.
pub proof fn lemma_with_value_idempotent(s: Seq<(Seq<Seq<char>>, i64)>, key: Seq<Seq<char>>, v: i64)
    requires
        keys_unique(s),
    ensures
        with_value(with_value(s, key, v), key, v) == with_value(s, key, v),
{
    lemma_with_value_unique(s, key, v);
    let t = with_value(s, key, v);
    if exists|i: int| 0 <= i < s.len() && s[i].0 == key {
        let c = choose|i: int| 0 <= i < s.len() && s[i].0 == key;
        assert(t[c].0 == key);
        lemma_with_value_unique(t, key, v);
        assert(t.update(c, (key, v)) =~= t);
    } else {
        let n = s.len() as int;
        assert(t[n].0 == key);
        lemma_with_value_unique(t, key, v);
        assert(t.update(n, (key, v)) =~= t);
    }
}

/// Setting a value never removes a label tuple, and keeps the order of those
/// that were there.
pub proof fn lemma_with_value_keeps_keys(s: Seq<(Seq<Seq<char>>, i64)>, key: Seq<Seq<char>>, v: i64)
    requires
        keys_unique(s),
    ensures
        with_value(s, key, v).len() >= s.len(),
        forall|i: int| 0 <= i < s.len() ==> #[trigger] with_value(s, key, v)[i].0 == s[i].0,
        exists|i: int| 0 <= i < with_value(s, key, v).len() && with_value(s, key, v)[i] == (key, v),
{
    let t = with_value(s, key, v);
    if exists|i: int| 0 <= i < s.len() && s[i].0 == key {
        let c = choose|i: int| 0 <= i < s.len() && s[i].0 == key;
        lemma_with_value_unique(s, key, v);
        assert(t == s.update(c, (key, v)));
        assert(t[c] == (key, v));
    } else {
        assert(t[s.len() as int] == (key, v));
    }
}

/// Setting one label tuple to two values leaves the same label tuples, in
/// the same order.
pub proof fn lemma_with_value_same_keys(s: Seq<(Seq<Seq<char>>, i64)>, key: Seq<Seq<char>>, v: i64, w: i64)
    ensures
        with_value(s, key, v).len() == with_value(s, key, w).len(),
        forall|i: int| 0 <= i < with_value(s, key, v).len() ==> #[trigger] with_value(s, key, v)[i].0 == with_value(
            s,
            key,
            w,
        )[i].0,
{
}

fn same_labels(a: &Vec<String>, b: &Vec<String>) -> (r: bool)
    ensures
        r == (labels_view(a@) == labels_view(b@)),
{
    if a.len() != b.len() {
        proof {
            assert(labels_view(a@).len() != labels_view(b@).len());
        }
        return false;
    }
    let mut i: usize = 0;
    while i < a.len()
        invariant
            a@.len() == b@.len(),
            i <= a@.len(),
            forall|j: int| 0 <= j < i ==> a@[j]@ == b@[j]@,
        decreases a@.len() - i,
    {
        if a[i] != b[i] {
            proof {
                assert(labels_view(a@)[i as int] != labels_view(b@)[i as int]);
            }
            return false;
        }
        i = i + 1;
    }
    proof {
        assert(labels_view(a@) =~= labels_view(b@));
    }
    true
}

impl GaugeFamily {
    pub fn new(name: &str, help: &str, scope: LabelScope, kind: ValueKind) -> (r: GaugeFamily)
        ensures
            r@.name == name@,
            r@.help == help@,
            r@.scope == scope,
            r@.kind == kind,
            r@.series == Seq::<(Seq<Seq<char>>, i64)>::empty(),
    {
        let r = GaugeFamily {
            name: String::from_str(name),
            help: String::from_str(help),
            scope,
            kind,
            series: Vec::new(),
        };
        proof {
            assert(series_view(r.series@) =~= Seq::<(Seq<Seq<char>>, i64)>::empty());
        }
        r
    }

    pub fn name(&self) -> (r: &String)
        ensures
            r@ == self@.name,
    {
        &self.name
    }

    pub fn help(&self) -> (r: &String)
        ensures
            r@ == self@.help,
    {
        &self.help
    }

    pub fn scope(&self) -> (r: LabelScope)
        ensures
            r == self@.scope,
    {
        self.scope
    }

    pub fn kind(&self) -> (r: ValueKind)
        ensures
            r == self@.kind,
    {
        self.kind
    }

    pub fn series(&self) -> (r: &Vec<Series>)
        ensures
            series_view(r@) == self@.series,
    {
        &self.series
    }

    /// Sets the gauge of label tuple `labels` to `value`.
    pub fn set(&mut self, labels: Vec<String>, value: i64)
        requires
            keys_unique(old(self)@.series),
        ensures
            final(self)@ == apply_update(old(self)@, Some((labels_view(labels@), value))),
            keys_unique(final(self)@.series),
    {
        let ghost key = labels_view(labels@);
        let ghost s0 = series_view(self.series@);
        proof {
            lemma_with_value_unique(s0, key, value);
        }
        let n = self.series.len();
        let mut i: usize = 0;
        while i < n
            invariant
                n == self.series@.len(),
                s0 == series_view(self.series@),
                s0 == series_view(old(self).series@),
                key == labels_view(labels@),
                keys_unique(s0),
                self.name == old(self).name,
                self.help == old(self).help,
                self.scope == old(self).scope,
                self.kind == old(self).kind,
                i <= n,
                forall|j: int| 0 <= j < i ==> s0[j].0 != key,
            decreases n - i,
        {
            proof {
                assert(s0[i as int].0 == labels_view(self.series@[i as int].labels@));
            }
            let same = same_labels(&self.series[i].labels, &labels);
            if same {
                self.series.set(i, Series { labels, value });
                proof {
                    assert(series_view(self.series@) =~= s0.update(i as int, (key, value)));
                }
                return;
            }
            i = i + 1;
        }
        self.series.push(Series { labels, value });
        proof {
            assert(series_view(self.series@) =~= s0.push((key, value)));
        }
    }
}


/// Number of gauge families.
pub const FAMILY_COUNT: usize = 14;

/// The published name of family `k`, in registration order.
pub open spec fn family_name(k: int) -> Seq<char> {
    if k < 0 {
        Seq::empty()
    } else if k == 0 {
        "namada_validator_uptime_percentage"@
    } else if k == 1 {
        "namada_validator_state"@
    } else if k == 2 {
        "namada_validator_active_set_rank"@
    } else if k == 3 {
        "namada_validator_missed_blocks"@
    } else if k == 4 {
        "namada_validator_total_bonds"@
    } else if k == 5 {
        "namada_validator_commission"@
    } else if k == 6 {
        "namada_network_epoch"@
    } else if k == 7 {
        "namada_node_catch_up"@
    } else if k == 8 {
        "namada_network_lowest_active_set_stake"@
    } else if k == 9 {
        "namada_network_max_set_size"@
    } else if k == 10 {
        "namada_network_stake_threshold"@
    } else if k == 11 {
        "namada_network_active_set_size"@
    } else if k == 12 {
        "namada_node_latest_block"@
    } else if k == 13 {
        "namada_validator_node_latest_block"@
    } else {
        Seq::empty()
    }
}

/// The help text of family `k`.
pub open spec fn family_help(k: int) -> Seq<char> {
    if k == 0 {
        "Validator uptime in percentage; -1 value if validator not in active set"@
    } else if k == 1 {
        "Validator state; 0 - unknown, 1 - active consensus set, 2 - active below capacity set, 3 - active below threshold set, 4 - jailed, 5 - inactive"@
    } else if k == 2 {
        "Validator active set rank, -1 value if not in active set"@
    } else if k == 3 {
        "Validator missed blocks in liveness window; -1 value if not in active set"@
    } else if k == 4 {
        "Validator total bonds"@
    } else if k == 5 {
        "Validator commission"@
    } else if k == 6 {
        "Current network epoch"@
    } else if k == 7 {
        "Validator catch up status; 0 - not catching up, 1 - catching up"@
    } else if k == 8 {
        "Lowest active set stake"@
    } else if k == 9 {
        "Max set size"@
    } else if k == 10 {
        "Stake threshold"@
    } else if k == 11 {
        "Active set size"@
    } else if k == 12 {
        "Latest block from rpc"@
    } else if k == 13 {
        "Latest block from rpc. This metric is deprecated and will be removed in future versions please use namada_node_latest_block"@
    } else {
        Seq::empty()
    }
}

/// The labels that family `k`'s series carry.
pub open spec fn family_scope(k: int) -> LabelScope {
    if k == 0 {
        LabelScope::Validator
    } else if k == 1 {
        LabelScope::Validator
    } else if k == 2 {
        LabelScope::Validator
    } else if k == 3 {
        LabelScope::Validator
    } else if k == 4 {
        LabelScope::Validator
    } else if k == 5 {
        LabelScope::Validator
    } else if k == 6 {
        LabelScope::Network
    } else if k == 7 {
        LabelScope::Network
    } else if k == 8 {
        LabelScope::Network
    } else if k == 9 {
        LabelScope::Network
    } else if k == 10 {
        LabelScope::Network
    } else if k == 11 {
        LabelScope::Network
    } else if k == 12 {
        LabelScope::Node
    } else if k == 13 {
        LabelScope::Network
    } else {
        LabelScope::Network
    }
}

/// How family `k` publishes its values.
pub open spec fn family_kind(k: int) -> ValueKind {
    if k == 0 {
        ValueKind::Integer
    } else if k == 1 {
        ValueKind::Integer
    } else if k == 2 {
        ValueKind::Integer
    } else if k == 3 {
        ValueKind::Integer
    } else if k == 4 {
        ValueKind::Integer
    } else if k == 5 {
        ValueKind::Hundredths
    } else if k == 6 {
        ValueKind::Integer
    } else if k == 7 {
        ValueKind::Integer
    } else if k == 8 {
        ValueKind::Integer
    } else if k == 9 {
        ValueKind::Integer
    } else if k == 10 {
        ValueKind::Integer
    } else if k == 11 {
        ValueKind::Integer
    } else if k == 12 {
        ValueKind::Integer
    } else if k == 13 {
        ValueKind::Integer
    } else {
        ValueKind::Integer
    }
}

pub struct MetricsView {
    pub chain_id: Seq<char>,
    pub tm_address: Seq<char>,
    pub families: Seq<FamilyView>,
}

/// The registry of the exporter: the gauge families in registration order,
/// and the chain id and validator address that label their series.
pub struct NamadaMetrics {
    chain_id: String,
    tm_address: String,
    families: Vec<GaugeFamily>,
}

impl View for NamadaMetrics {
    type V = MetricsView;

    closed spec fn view(&self) -> MetricsView {
        MetricsView {
            chain_id: self.chain_id@,
            tm_address: self.tm_address@,
            families: self.families@.map_values(|f: GaugeFamily| f@),
        }
    }
}

/// Label tuple of validator-scoped series.
pub open spec fn validator_labels(chain: Seq<char>, tm: Seq<char>, d: ValidatorMetricsData) -> Seq<Seq<char>> {
    seq![chain, tm, d.validator_address_hash@]
}

/// What publishing a validator record sets in family `k`.
pub open spec fn validator_update(chain: Seq<char>, tm: Seq<char>, d: ValidatorMetricsData) -> spec_fn(int) -> Option<(Seq<Seq<char>>, i64)> {
    |k: int|
        {
            let l = validator_labels(chain, tm, d);
            if k == 0 {
                Some((l, d.namada_validator_uptime_percentage))
            } else if k == 1 {
                Some((l, d.namada_validator_state))
            } else if k == 2 {
                Some((l, d.namada_validator_active_set_rank))
            } else if k == 3 {
                Some((l, d.namada_missed_blocks))
            } else if k == 4 {
                Some((l, d.namada_total_bonds))
            } else if k == 5 {
                Some((l, d.validator_commission_hundredths))
            } else {
                None
            }
        }
}

/// What publishing a network record sets in family `k`.
pub open spec fn network_update(chain: Seq<char>, d: NetworkMetricsData) -> spec_fn(int) -> Option<(Seq<Seq<char>>, i64)> {
    |k: int|
        {
            let l = seq![chain];
            if k == 6 {
                Some((l, d.namada_network_epoch))
            } else if k == 7 {
                Some((l, d.namada_node_catch_up))
            } else if k == 8 {
                Some((l, d.namada_network_lowest_active_set_stake))
            } else if k == 9 {
                Some((l, d.namada_network_max_set_size))
            } else if k == 10 {
                Some((l, d.namada_network_stake_threshold))
            } else if k == 11 {
                Some((l, d.namada_network_active_set_size))
            } else {
                None
            }
        }
}

/// What publishing a node record sets in family `k`.
pub open spec fn node_update(chain: Seq<char>, d: NodeMetricsData) -> spec_fn(int) -> Option<(Seq<Seq<char>>, i64)> {
    |k: int|
        {
            if k == 12 {
                Some((seq![chain, d.node_id@, d.moniker@], d.namada_node_latest_block))
            } else if k == 13 {
                Some((seq![chain], d.namada_node_latest_block))
            } else {
                None
            }
        }
}

fn label_tuple3(a: &String, b: &String, c: &String) -> (r: Vec<String>)
    ensures
        labels_view(r@) == seq![a@, b@, c@],
{
    let mut r: Vec<String> = Vec::new();
    r.push(a.clone());
    r.push(b.clone());
    r.push(c.clone());
    proof {
        assert(labels_view(r@) =~= seq![a@, b@, c@]);
    }
    r
}

fn label_tuple1(a: &String) -> (r: Vec<String>)
    ensures
        labels_view(r@) == seq![a@],
{
    let mut r: Vec<String> = Vec::new();
    r.push(a.clone());
    proof {
        assert(labels_view(r@) =~= seq![a@]);
    }
    r
}

impl NamadaMetrics {
    /// Well formed: every family present, no label tuple twice in a family.
    pub open spec fn wf(&self) -> bool {
        &&& self@.families.len() == FAMILY_COUNT
        &&& forall|k: int| 0 <= k < self@.families.len() ==> keys_unique(#[trigger] self@.families[k].series)
    }

    /// A registry with every family registered and no series set.
    pub fn create(chain_id: String, tm_address: String) -> (r: NamadaMetrics)
        ensures
            r.wf(),
            r@.chain_id == chain_id@,
            r@.tm_address == tm_address@,
            forall|k: int| 0 <= k < FAMILY_COUNT ==> (#[trigger] r@.families[k]).name == family_name(k)
                && r@.families[k].help == family_help(k) && r@.families[k].scope == family_scope(k)
                && r@.families[k].kind == family_kind(k) && r@.families[k].series.len() == 0,
    {
        let mut families: Vec<GaugeFamily> = Vec::new();
        families.push(GaugeFamily::new(
            "namada_validator_uptime_percentage",
            "Validator uptime in percentage; -1 value if validator not in active set",
            LabelScope::Validator,
            ValueKind::Integer,
        ));
        families.push(GaugeFamily::new(
            "namada_validator_state",
            "Validator state; 0 - unknown, 1 - active consensus set, 2 - active below capacity set, 3 - active below threshold set, 4 - jailed, 5 - inactive",
            LabelScope::Validator,
            ValueKind::Integer,
        ));
        families.push(GaugeFamily::new(
            "namada_validator_active_set_rank",
            "Validator active set rank, -1 value if not in active set",
            LabelScope::Validator,
            ValueKind::Integer,
        ));
        families.push(GaugeFamily::new(
            "namada_validator_missed_blocks",
            "Validator missed blocks in liveness window; -1 value if not in active set",
            LabelScope::Validator,
            ValueKind::Integer,
        ));
        families.push(GaugeFamily::new(
            "namada_validator_total_bonds",
            "Validator total bonds",
            LabelScope::Validator,
            ValueKind::Integer,
        ));
        families.push(GaugeFamily::new(
            "namada_validator_commission",
            "Validator commission",
            LabelScope::Validator,
            ValueKind::Hundredths,
        ));
        families.push(GaugeFamily::new(
            "namada_network_epoch",
            "Current network epoch",
            LabelScope::Network,
            ValueKind::Integer,
        ));
        families.push(GaugeFamily::new(
            "namada_node_catch_up",
            "Validator catch up status; 0 - not catching up, 1 - catching up",
            LabelScope::Network,
            ValueKind::Integer,
        ));
        families.push(GaugeFamily::new(
            "namada_network_lowest_active_set_stake",
            "Lowest active set stake",
            LabelScope::Network,
            ValueKind::Integer,
        ));
        families.push(GaugeFamily::new(
            "namada_network_max_set_size",
            "Max set size",
            LabelScope::Network,
            ValueKind::Integer,
        ));
        families.push(GaugeFamily::new(
            "namada_network_stake_threshold",
            "Stake threshold",
            LabelScope::Network,
            ValueKind::Integer,
        ));
        families.push(GaugeFamily::new(
            "namada_network_active_set_size",
            "Active set size",
            LabelScope::Network,
            ValueKind::Integer,
        ));
        families.push(GaugeFamily::new(
            "namada_node_latest_block",
            "Latest block from rpc",
            LabelScope::Node,
            ValueKind::Integer,
        ));
        families.push(GaugeFamily::new(
            "namada_validator_node_latest_block",
            "Latest block from rpc. This metric is deprecated and will be removed in future versions please use namada_node_latest_block",
            LabelScope::Network,
            ValueKind::Integer,
        ));
        let r = NamadaMetrics { chain_id, tm_address, families };
        proof {
            assert forall|k: int| 0 <= k < FAMILY_COUNT implies (#[trigger] r@.families[k]).name == family_name(k)
                && r@.families[k].help == family_help(k) && r@.families[k].scope == family_scope(k)
                && r@.families[k].kind == family_kind(k) && r@.families[k].series.len() == 0 by {
                assert(r@.families[k] == r.families@[k]@);
            }
        }
        r
    }

    pub fn tm_address(&self) -> (r: &String)
        ensures
            r@ == self@.tm_address,
    {
        &self.tm_address
    }

    pub fn chain_id(&self) -> (r: &String)
        ensures
            r@ == self@.chain_id,
    {
        &self.chain_id
    }

    /// The families, in registration order.
    pub fn families(&self) -> (r: &Vec<GaugeFamily>)
        ensures
            r@.map_values(|f: GaugeFamily| f@) == self@.families,
    {
        &self.families
    }

    /// Labels the series of later publications with `chain_id`.
    pub fn set_chain_id(&mut self, chain_id: String)
        ensures
            final(self)@ == (MetricsView { chain_id: chain_id@, ..old(self)@ }),
            final(self).wf() == old(self).wf(),
    {
        self.chain_id = chain_id;
    }

    fn set_at(&mut self, k: usize, labels: Vec<String>, value: i64)
        requires
            old(self).wf(),
            k < FAMILY_COUNT,
        ensures
            final(self).wf(),
            final(self)@ == (MetricsView {
                families: old(self)@.families.update(
                    k as int,
                    apply_update(old(self)@.families[k as int], Some((labels_view(labels@), value))),
                ),
                ..old(self)@
            }),
    {
        let ghost old_fams = self@.families;
        let mut f = self.families.remove(k);
        proof {
            assert(f@ == old_fams[k as int]);
        }
        f.set(labels, value);
        self.families.insert(k, f);
        proof {
            assert(self@.families =~= old_fams.update(k as int, f@));
        }
    }

    /// Publishes a validator record under the registry's chain id and
    /// validator address and the record's consensus key hash.
    pub fn set_validator_metrics(&mut self, data: &ValidatorMetricsData)
        requires
            old(self).wf(),
        ensures
            final(self).wf(),
            final(self)@ == (MetricsView {
                families: apply_all(
                    old(self)@.families,
                    validator_update(old(self)@.chain_id, old(self)@.tm_address, *data),
                ),
                ..old(self)@
            }),
    {
        let ghost f0 = self@.families;
        self.set_at(0, label_tuple3(&self.chain_id, &self.tm_address, &data.validator_address_hash), data.namada_validator_uptime_percentage);
        self.set_at(1, label_tuple3(&self.chain_id, &self.tm_address, &data.validator_address_hash), data.namada_validator_state);
        self.set_at(2, label_tuple3(&self.chain_id, &self.tm_address, &data.validator_address_hash), data.namada_validator_active_set_rank);
        self.set_at(3, label_tuple3(&self.chain_id, &self.tm_address, &data.validator_address_hash), data.namada_missed_blocks);
        self.set_at(4, label_tuple3(&self.chain_id, &self.tm_address, &data.validator_address_hash), data.namada_total_bonds);
        self.set_at(5, label_tuple3(&self.chain_id, &self.tm_address, &data.validator_address_hash), data.validator_commission_hundredths);
        proof {
            assert(self@.families =~= apply_all(f0, validator_update(self@.chain_id, self@.tm_address, *data)));
        }
    }

    /// Publishes a network record under the registry's chain id.
    pub fn set_network_metrics(&mut self, data: &NetworkMetricsData)
        requires
            old(self).wf(),
        ensures
            final(self).wf(),
            final(self)@ == (MetricsView {
                families: apply_all(old(self)@.families, network_update(old(self)@.chain_id, *data)),
                ..old(self)@
            }),
    {
        let ghost f0 = self@.families;
        self.set_at(6, label_tuple1(&self.chain_id), data.namada_network_epoch);
        self.set_at(7, label_tuple1(&self.chain_id), data.namada_node_catch_up);
        self.set_at(8, label_tuple1(&self.chain_id), data.namada_network_lowest_active_set_stake);
        self.set_at(9, label_tuple1(&self.chain_id), data.namada_network_max_set_size);
        self.set_at(10, label_tuple1(&self.chain_id), data.namada_network_stake_threshold);
        self.set_at(11, label_tuple1(&self.chain_id), data.namada_network_active_set_size);
        proof {
            assert(self@.families =~= apply_all(f0, network_update(self@.chain_id, *data)));
        }
    }

    /// Publishes a node record: the latest block under the node's labels,
    /// and again in the deprecated family under the chain id alone.
    pub fn set_node_metrics(&mut self, data: &NodeMetricsData)
        requires
            old(self).wf(),
        ensures
            final(self).wf(),
            final(self)@ == (MetricsView {
                families: apply_all(old(self)@.families, node_update(old(self)@.chain_id, *data)),
                ..old(self)@
            }),
    {
        let ghost f0 = self@.families;
        self.set_at(12, label_tuple3(&self.chain_id, &data.node_id, &data.moniker), data.namada_node_latest_block);
        self.set_at(13, label_tuple1(&self.chain_id), data.namada_node_latest_block);
        proof {
            assert(self@.families =~= apply_all(f0, node_update(self@.chain_id, *data)));
        }
    }
}

} // verus!
