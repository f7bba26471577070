//! A bound contract: the generic, untyped state of a contract paired with
//! the interface it is read through, together with the filterable records
//! drawn from that state.
//!
//! The state store keeps global state as named slots of typed values, owned
//! state as named slots of fungible or rights allocations, and the history
//! of fungible operations as named slots of per-witness records.  Everything
//! here is plain resident data: lookups, filtering and history keying are
//! ordinary computations over it.

use vstd::prelude::*;

use std::collections::HashMap;

use crate::amount::Amount;
use crate::iface::str_eq;
use crate::iface::IfaceId;

verus! {

broadcast use vstd::std_specs::hash::group_hash_axioms;

/// An opaque reference to the transaction output that owns a piece of state.
#[derive(Clone, Copy, Debug, PartialEq, Eq, Structural)]
pub struct Outpoint {
    pub txid: u64,
    pub vout: u32,
}

/// An opaque identifier of the witness transaction that produced a state
/// change; operation histories are keyed by it.
pub type WitnessId = u64;

/// An owned fungible record: some asset units held by an outpoint.
#[derive(Clone, Copy, Debug, PartialEq, Eq)]
pub struct FungibleAllocation {
    pub seal: Outpoint,
    pub state: Amount,
    pub witness: Option<WitnessId>,
}

/// An owned right held by an outpoint, carrying no value of its own.
#[derive(Clone, Copy, Debug, PartialEq, Eq)]
pub struct RightsAllocation {
    pub seal: Outpoint,
    pub witness: Option<WitnessId>,
}

/// The net change a state transition made to a fungible state slot.
#[derive(Clone, Copy, Debug, PartialEq, Eq, Structural)]
pub enum AmountChange {
    /// The amount decreased by the carried number of units.
    Dec(Amount),
    /// The amount did not change.
    Zero,
    /// The amount increased by the carried number of units.
    Inc(Amount),
}

/// One raw operation record reported by the state store, in the store's own
/// enumeration order.
#[derive(Clone, Copy, Debug, PartialEq, Eq)]
pub struct FungibleOpRecord {
    pub witness: WitnessId,
    pub seal: Outpoint,
    pub state_change: AmountChange,
}

/// A caller-supplied predicate over the outpoints that own state records.
#[derive(Clone, Debug)]
pub enum OutpointFilter {
    /// Every outpoint passes.
    IncludeAll,
    /// Only the listed outpoints pass.
    Include(Vec<Outpoint>),
}

impl OutpointFilter {
    /// Whether the filter lets this outpoint through.
    pub open spec fn spec_includes(&self, o: Outpoint) -> bool {
        match self {
            OutpointFilter::IncludeAll => true,
            OutpointFilter::Include(v) => v@.contains(o),
        }
    }

    pub fn include_outpoint(&self, o: Outpoint) -> (r: bool)
        ensures
            r == self.spec_includes(o),
    {
        match self {
            OutpointFilter::IncludeAll => true,
            OutpointFilter::Include(v) => {
                let mut i: usize = 0;
                while i < v.len()
                    invariant
                        0 <= i <= v.len(),
                        self.spec_includes(o) <==> v@.contains(o),
                        forall|j: int| 0 <= j < i ==> v@[j] != o,
                    decreases v.len() - i,
                {
                    if v[i] == o {
                        proof {
                            assert(v@[i as int] == o);
                            assert(v@.contains(o));
                        }
                        return true;
                    }
                    i = i + 1;
                }
                false
            },
        }
    }
}

/// A caller-supplied predicate over witness identifiers.
#[derive(Clone, Debug)]
pub enum WitnessFilter {
    /// Every witness passes.
    IncludeAll,
    /// Only the listed witnesses pass.
    Include(Vec<WitnessId>),
}

impl WitnessFilter {
    /// Whether the filter lets this witness through.
    pub open spec fn spec_includes(&self, w: WitnessId) -> bool {
        match self {
            WitnessFilter::IncludeAll => true,
            WitnessFilter::Include(v) => v@.contains(w),
        }
    }

    pub fn include_witness(&self, w: WitnessId) -> (r: bool)
        ensures
            r == self.spec_includes(w),
    {
        match self {
            WitnessFilter::IncludeAll => true,
            WitnessFilter::Include(v) => {
                let mut i: usize = 0;
                while i < v.len()
                    invariant
                        0 <= i <= v.len(),
                        self.spec_includes(w) <==> v@.contains(w),
                        forall|j: int| 0 <= j < i ==> v@[j] != w,
                    decreases v.len() - i,
                {
                    if v[i] == w {
                        proof {
                            assert(v@[i as int] == w);
                            assert(v@.contains(w));
                        }
                        return true;
                    }
                    i = i + 1;
                }
                false
            },
        }
    }
}

/// The nominal description of an asset: ticker, name, optional details and
/// decimal precision.  Extracted from contract state, never stored apart.
#[derive(Debug, PartialEq, Eq)]
pub struct AssetSpec {
    pub ticker: String,
    pub name: String,
    pub details: Option<String>,
    pub precision: u8,
}

impl Clone for AssetSpec {
    fn clone(&self) -> (res: Self)
        ensures
            res == *self,
    {
        let details: Option<String> = match &self.details {
            Some(d) => Some(d.clone()),
            None => None,
        };
        AssetSpec {
            ticker: self.ticker.clone(),
            name: self.name.clone(),
            details,
            precision: self.precision,
        }
    }
}

/// A reference to a media object attached to the contract terms.
#[derive(Debug, PartialEq, Eq)]
pub struct Attachment {
    pub media_type: String,
    pub digest: [u8; 32],
}

impl Clone for Attachment {
    fn clone(&self) -> (res: Self)
        ensures
            res == *self,
    {
        Attachment { media_type: self.media_type.clone(), digest: self.digest }
    }
}

/// The free-text terms of a contract plus an optional attached media
/// reference.
#[derive(Debug, PartialEq, Eq)]
pub struct ContractTerms {
    pub text: String,
    pub media: Option<Attachment>,
}

impl Clone for ContractTerms {
    fn clone(&self) -> (res: Self)
        ensures
            res == *self,
    {
        let media: Option<Attachment> = match &self.media {
            Some(m) => Some(m.clone()),
            None => None,
        };
        ContractTerms { text: self.text.clone(), media }
    }
}

/// One opaque typed value held in a global-state slot.
#[derive(Debug, PartialEq, Eq)]
pub enum GlobalValue {
    /// A quantity of asset units.
    Amount(Amount),
    /// A full asset specification.
    Asset(AssetSpec),
    /// Contract terms.
    Terms(ContractTerms),
    /// A bare name.
    Name(String),
    /// Bare details text.
    Details(String),
    /// A decimal precision.
    Precision(u8),
}

/// A named global-state slot: an ordered sequence of typed values.
#[derive(Debug)]
pub struct GlobalSlot {
    pub name: String,
    pub values: Vec<GlobalValue>,
}

/// A named owned-state slot of fungible allocations.
#[derive(Debug)]
pub struct FungibleSlot {
    pub name: String,
    pub allocations: Vec<FungibleAllocation>,
}

/// A named owned-state slot of rights allocations.
#[derive(Debug)]
pub struct RightsSlot {
    pub name: String,
    pub allocations: Vec<RightsAllocation>,
}

/// The raw operation records of one fungible state slot, in the store's own
/// enumeration order.
#[derive(Debug)]
pub struct OpsSlot {
    pub name: String,
    pub records: Vec<FungibleOpRecord>,
}

/// The generic, untyped state of a contract, as the state store reports it.
#[derive(Debug)]
pub struct ContractState {
    pub globals: Vec<GlobalSlot>,
    pub fungible: Vec<FungibleSlot>,
    pub rights: Vec<RightsSlot>,
    pub ops: Vec<OpsSlot>,
}

/// A contract's generic state paired with the interface it is read through:
/// the observed interface's identifier and declared transition names, and
/// the state itself.  The typed accessor layer borrows this pairing and
/// never mutates it.
#[derive(Debug)]
pub struct BoundContract {
    pub iface_id: IfaceId,
    pub transitions: Vec<String>,
    pub state: ContractState,
}

/// The values of the first global slot carrying this name, if any.
pub open spec fn lookup_global(s: Seq<GlobalSlot>, name: Seq<char>) -> Option<Seq<GlobalValue>>
    decreases s.len(),
{
    if s.len() == 0 {
        None
    } else if s[0].name@ == name {
        Some(s[0].values@)
    } else {
        lookup_global(s.drop_first(), name)
    }
}

/// The allocations of the first fungible slot carrying this name, if any.
pub open spec fn lookup_fungible(s: Seq<FungibleSlot>, name: Seq<char>) -> Option<
    Seq<FungibleAllocation>,
>
    decreases s.len(),
{
    if s.len() == 0 {
        None
    } else if s[0].name@ == name {
        Some(s[0].allocations@)
    } else {
        lookup_fungible(s.drop_first(), name)
    }
}

/// The allocations of the first rights slot carrying this name, if any.
pub open spec fn lookup_rights(s: Seq<RightsSlot>, name: Seq<char>) -> Option<
    Seq<RightsAllocation>,
>
    decreases s.len(),
{
    if s.len() == 0 {
        None
    } else if s[0].name@ == name {
        Some(s[0].allocations@)
    } else {
        lookup_rights(s.drop_first(), name)
    }
}

/// The records of the first operation-history slot carrying this name.
pub open spec fn lookup_ops(s: Seq<OpsSlot>, name: Seq<char>) -> Option<Seq<FungibleOpRecord>>
    decreases s.len(),
{
    if s.len() == 0 {
        None
    } else if s[0].name@ == name {
        Some(s[0].records@)
    } else {
        lookup_ops(s.drop_first(), name)
    }
}

/// The fungible allocations that pass an outpoint filter, in the store's
/// enumeration order.
pub open spec fn filter_fungible(s: Seq<FungibleAllocation>, f: &OutpointFilter) -> Seq<
    FungibleAllocation,
>
    decreases s.len(),
{
    if s.len() == 0 {
        Seq::empty()
    } else {
        filter_fungible(s.drop_last(), f) + if f.spec_includes(s.last().seal) {
            seq![s.last()]
        } else {
            Seq::empty()
        }
    }
}

/// The rights allocations that pass an outpoint filter, in order.
pub open spec fn filter_rights(s: Seq<RightsAllocation>, f: &OutpointFilter) -> Seq<
    RightsAllocation,
>
    decreases s.len(),
{
    if s.len() == 0 {
        Seq::empty()
    } else {
        filter_rights(s.drop_last(), f) + if f.spec_includes(s.last().seal) {
            seq![s.last()]
        } else {
            Seq::empty()
        }
    }
}

/// The per-witness operation history built from raw records: records that
/// pass both filters are keyed by witness identifier, and when the store
/// reports several records for one witness, the last applied wins.
pub open spec fn history_map(
    s: Seq<FungibleOpRecord>,
    wf: &WitnessFilter,
    of: &OutpointFilter,
) -> Map<WitnessId, AmountChange>
    decreases s.len(),
{
    if s.len() == 0 {
        Map::empty()
    } else {
        let m = history_map(s.drop_last(), wf, of);
        if wf.spec_includes(s.last().witness) && of.spec_includes(s.last().seal) {
            m.insert(s.last().witness, s.last().state_change)
        } else {
            m
        }
    }
}

/// The amounts carried by a sequence of fungible allocations, in order.
pub open spec fn alloc_amounts(s: Seq<FungibleAllocation>) -> Seq<Amount> {
    s.map_values(|a: FungibleAllocation| a.state)
}

impl ContractState {
    /// The values of the named global-state slot; `None` when the interface
    /// does not recognise the slot name.
    pub fn global<'a>(&'a self, name: &str) -> (r: Option<&'a Vec<GlobalValue>>)
        ensures
            match r {
                Some(v) => lookup_global(self.globals@, name@) == Some(v@),
                None => lookup_global(self.globals@, name@) is None,
            },
    {
        proof {
            assert(self.globals@.skip(0) =~= self.globals@);
        }
        let mut i: usize = 0;
        while i < self.globals.len()
            invariant
                0 <= i <= self.globals.len(),
                lookup_global(self.globals@.skip(i as int), name@) == lookup_global(
                    self.globals@,
                    name@,
                ),
            decreases self.globals.len() - i,
        {
            proof {
                assert(self.globals@.skip(i as int)[0] == self.globals@[i as int]);
                assert(self.globals@.skip(i as int).drop_first() =~= self.globals@.skip(i + 1));
            }
            if str_eq(self.globals[i].name.as_str(), name) {
                return Some(&self.globals[i].values);
            }
            i = i + 1;
        }
        proof {
            assert(self.globals@.skip(self.globals@.len() as int) =~= Seq::<GlobalSlot>::empty());
        }
        None
    }

    /// The fungible allocations of the named owned-state slot that pass the
    /// filter; `None` when the slot name is not recognised.
    pub fn fungible(&self, name: &str, filter: &OutpointFilter) -> (r: Option<
        Vec<FungibleAllocation>,
    >)
        ensures
            match lookup_fungible(self.fungible@, name@) {
                Some(allocs) => r matches Some(v) && v@ =~= filter_fungible(allocs, filter),
                None => r is None,
            },
    {
        proof {
            assert(self.fungible@.skip(0) =~= self.fungible@);
        }
        let mut i: usize = 0;
        while i < self.fungible.len()
            invariant
                0 <= i <= self.fungible.len(),
                lookup_fungible(self.fungible@.skip(i as int), name@) == lookup_fungible(
                    self.fungible@,
                    name@,
                ),
            decreases self.fungible.len() - i,
        {
            proof {
                assert(self.fungible@.skip(i as int)[0] == self.fungible@[i as int]);
                assert(self.fungible@.skip(i as int).drop_first() =~= self.fungible@.skip(i + 1));
            }
            if str_eq(self.fungible[i].name.as_str(), name) {
                let allocs = &self.fungible[i].allocations;
                let mut out: Vec<FungibleAllocation> = Vec::new();
                let mut j: usize = 0;
                while j < allocs.len()
                    invariant
                        0 <= j <= allocs.len(),
                        out@ =~= filter_fungible(allocs@.take(j as int), filter),
                    decreases allocs.len() - j,
                {
                    proof {
                        assert(allocs@.take(j + 1).drop_last() =~= allocs@.take(j as int));
                        assert(allocs@.take(j + 1).last() == allocs@[j as int]);
                    }
                    if filter.include_outpoint(allocs[j].seal) {
                        out.push(allocs[j]);
                    }
                    j = j + 1;
                }
                proof {
                    assert(allocs@.take(allocs@.len() as int) =~= allocs@);
                }
                return Some(out);
            }
            i = i + 1;
        }
        proof {
            assert(self.fungible@.skip(self.fungible@.len() as int) =~= Seq::<
                FungibleSlot,
            >::empty());
        }
        None
    }

    /// The rights allocations of the named owned-state slot that pass the
    /// filter; `None` when the slot name is not recognised.
    pub fn rights(&self, name: &str, filter: &OutpointFilter) -> (r: Option<Vec<RightsAllocation>>)
        ensures
            match lookup_rights(self.rights@, name@) {
                Some(allocs) => r matches Some(v) && v@ =~= filter_rights(allocs, filter),
                None => r is None,
            },
    {
        proof {
            assert(self.rights@.skip(0) =~= self.rights@);
        }
        let mut i: usize = 0;
        while i < self.rights.len()
            invariant
                0 <= i <= self.rights.len(),
                lookup_rights(self.rights@.skip(i as int), name@) == lookup_rights(
                    self.rights@,
                    name@,
                ),
            decreases self.rights.len() - i,
        {
            proof {
                assert(self.rights@.skip(i as int)[0] == self.rights@[i as int]);
                assert(self.rights@.skip(i as int).drop_first() =~= self.rights@.skip(i + 1));
            }
            if str_eq(self.rights[i].name.as_str(), name) {
                let allocs = &self.rights[i].allocations;
                let mut out: Vec<RightsAllocation> = Vec::new();
                let mut j: usize = 0;
                while j < allocs.len()
                    invariant
                        0 <= j <= allocs.len(),
                        out@ =~= filter_rights(allocs@.take(j as int), filter),
                    decreases allocs.len() - j,
                {
                    proof {
                        assert(allocs@.take(j + 1).drop_last() =~= allocs@.take(j as int));
                        assert(allocs@.take(j + 1).last() == allocs@[j as int]);
                    }
                    if filter.include_outpoint(allocs[j].seal) {
                        out.push(allocs[j]);
                    }
                    j = j + 1;
                }
                proof {
                    assert(allocs@.take(allocs@.len() as int) =~= allocs@);
                }
                return Some(out);
            }
            i = i + 1;
        }
        proof {
            assert(self.rights@.skip(self.rights@.len() as int) =~= Seq::<RightsSlot>::empty());
        }
        None
    }

    /// The per-witness operation history of the named fungible state slot,
    /// restricted to records passing both filters; `None` when the slot name
    /// is not recognised.  At most one entry per distinct witness
    /// identifier; the last record reported by the store wins.
    pub fn fungible_ops(
        &self,
        name: &str,
        witness_filter: &WitnessFilter,
        outpoint_filter: &OutpointFilter,
    ) -> (r: Option<HashMap<WitnessId, AmountChange>>)
        ensures
            match lookup_ops(self.ops@, name@) {
                Some(records) => r matches Some(m) && m@ == history_map(
                    records,
                    witness_filter,
                    outpoint_filter,
                ),
                None => r is None,
            },
    {
        proof {
            assert(self.ops@.skip(0) =~= self.ops@);
        }
        let mut i: usize = 0;
        while i < self.ops.len()
            invariant
                0 <= i <= self.ops.len(),
                lookup_ops(self.ops@.skip(i as int), name@) == lookup_ops(self.ops@, name@),
            decreases self.ops.len() - i,
        {
            proof {
                assert(self.ops@.skip(i as int)[0] == self.ops@[i as int]);
                assert(self.ops@.skip(i as int).drop_first() =~= self.ops@.skip(i + 1));
            }
            if str_eq(self.ops[i].name.as_str(), name) {
                let records = &self.ops[i].records;
                let mut m: HashMap<WitnessId, AmountChange> = HashMap::new();
                let mut j: usize = 0;
                while j < records.len()
                    invariant
                        0 <= j <= records.len(),
                        m@ == history_map(
                            records@.take(j as int),
                            witness_filter,
                            outpoint_filter,
                        ),
                    decreases records.len() - j,
                {
                    proof {
                        assert(records@.take(j + 1).drop_last() =~= records@.take(j as int));
                        assert(records@.take(j + 1).last() == records@[j as int]);
                    }
                    let rec = records[j];
                    if witness_filter.include_witness(rec.witness) && outpoint_filter
                        .include_outpoint(rec.seal) {
                        m.insert(rec.witness, rec.state_change);
                    }
                    j = j + 1;
                }
                proof {
                    assert(records@.take(records@.len() as int) =~= records@);
                }
                return Some(m);
            }
            i = i + 1;
        }
        proof {
            assert(self.ops@.skip(self.ops@.len() as int) =~= Seq::<OpsSlot>::empty());
        }
        None
    }
}


/// Whether every value in a global slot is an amount; slots that carry
/// supplies must hold amounts only.
pub open spec fn all_amounts(vs: Seq<GlobalValue>) -> bool {
    forall|i: int| 0 <= i < vs.len() ==> vs[i] is Amount
}

/// The amount carried by one global value; a value of any other kind counts
/// as zero.
pub open spec fn value_amount(v: GlobalValue) -> Amount {
    match v {
        GlobalValue::Amount(a) => a,
        _ => Amount(0),
    }
}

/// The amounts carried by the values of a global slot, in order.
pub open spec fn amounts_of(vs: Seq<GlobalValue>) -> Seq<Amount> {
    vs.map_values(|v: GlobalValue| value_amount(v))
}

/// Sums the amounts held in a global slot.  The slot must hold amounts
/// only, and the caller guarantees the total fits the machine word: supply
/// overflow is a fatal condition and is excluded rather than wrapped.
pub fn sum_amount_values(values: &Vec<GlobalValue>) -> (r: Amount)
    requires
        all_amounts(values@),
        crate::amount::amount_sum(amounts_of(values@)) <= u64::MAX,
    ensures
        r.0 == crate::amount::amount_sum(amounts_of(values@)),
{
    let mut amounts: Vec<Amount> = Vec::new();
    let mut i: usize = 0;
    while i < values.len()
        invariant
            0 <= i <= values.len(),
            all_amounts(values@),
            amounts@ =~= amounts_of(values@.take(i as int)),
        decreases values.len() - i,
    {
        match &values[i] {
            GlobalValue::Amount(a) => amounts.push(*a),
            _ => {
                proof {
                    assert(values@[i as int] is Amount);
                }
                vstd::pervasive::unreached::<()>()
            },
        }
        proof {
            assert(amounts@ =~= amounts_of(values@.take(i + 1)));
        }
        i = i + 1;
    }
    proof {
        assert(values@.take(values@.len() as int) =~= values@);
    }
    crate::amount::sum_amounts(&amounts)
}

/// Whether one raw operation record passes both history filters.
pub open spec fn op_passes(rec: FungibleOpRecord, wf: &WitnessFilter, of: &OutpointFilter) -> bool {
    wf.spec_includes(rec.witness) && of.spec_includes(rec.seal)
}

/// A witness identifier is keyed in the history exactly when some record
/// passing both filters carries it: the history invents no entries and
/// loses none.
pub proof fn lemma_history_dom(
    records: Seq<FungibleOpRecord>,
    wf: &WitnessFilter,
    of: &OutpointFilter,
    w: WitnessId,
)
    ensures
        history_map(records, wf, of).contains_key(w) <==> exists|j: int|
            0 <= j < records.len() && records[j].witness == w && op_passes(records[j], wf, of),
    decreases records.len(),
{
    if records.len() > 0 {
        let prefix = records.drop_last();
        lemma_history_dom(prefix, wf, of, w);
        let last = records.last();
        if history_map(records, wf, of).contains_key(w) {
            if op_passes(last, wf, of) && last.witness == w {
                assert(records[records.len() - 1].witness == w && op_passes(
                    records[records.len() - 1],
                    wf,
                    of,
                ));
            } else {
                assert(history_map(prefix, wf, of).contains_key(w));
                let j = choose|j: int|
                    0 <= j < prefix.len() && prefix[j].witness == w && op_passes(prefix[j], wf, of);
                assert(records[j].witness == w && op_passes(records[j], wf, of));
            }
        }
        if exists|j: int|
            0 <= j < records.len() && records[j].witness == w && op_passes(records[j], wf, of) {
            let j = choose|j: int|
                0 <= j < records.len() && records[j].witness == w && op_passes(records[j], wf, of);
            if j < records.len() - 1 {
                assert(prefix[j].witness == w && op_passes(prefix[j], wf, of));
            }
        }
    }
}

/// Per-witness keying with the last record winning: when a passing record
/// carries a witness and no later passing record carries the same witness,
/// the history maps that witness to exactly that record's change.  In
/// particular the history holds at most one entry per distinct witness,
/// whatever the store reported.
pub proof fn lemma_history_last_wins(
    records: Seq<FungibleOpRecord>,
    wf: &WitnessFilter,
    of: &OutpointFilter,
    k: int,
)
    requires
        0 <= k < records.len(),
        op_passes(records[k], wf, of),
        forall|j: int|
            k < j < records.len() && op_passes(#[trigger] records[j], wf, of) ==> records[j].witness
                != records[k].witness,
    ensures
        history_map(records, wf, of).contains_key(records[k].witness),
        history_map(records, wf, of)[records[k].witness] == records[k].state_change,
    decreases records.len(),
{
    let last = records.last();
    let prefix = records.drop_last();
    if k == records.len() - 1 {
        assert(history_map(records, wf, of) == history_map(prefix, wf, of).insert(
            last.witness,
            last.state_change,
        ));
    } else {
        assert(prefix[k] == records[k]);
        assert(forall|j: int|
            k < j < prefix.len() && op_passes(#[trigger] prefix[j], wf, of) ==> prefix[j].witness
                != prefix[k].witness);
        lemma_history_last_wins(prefix, wf, of, k);
        if op_passes(last, wf, of) {
            assert(last.witness != records[k].witness);
        }
    }
}

} // verus!
