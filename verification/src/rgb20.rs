//! The fungible-token interface family: capability composition, feature
//! extraction, and typed access to the state of a bound contract.

use vstd::prelude::*;

use std::collections::HashMap;

use crate::amount::{amount_sum, sum_amounts, Amount, SupplyError};
use crate::iface::{
    digest_of, extend_check, fragment_code, lemma_transitions_markers, spec_canonical_bytes,
    spec_transitions, str_eq, Fragment, Iface, IfaceId,
};
use crate::state::{
    all_amounts, alloc_amounts, amounts_of, filter_fungible, filter_rights, history_map,
    lookup_fungible, lookup_global, lookup_ops, lookup_rights, sum_amount_values, AmountChange,
    AssetSpec, Attachment, BoundContract, ContractTerms, FungibleAllocation, GlobalValue,
    OutpointFilter, RightsAllocation, WitnessFilter, WitnessId,
};

verus! {

/// The inflation regime of a fungible asset.  The five variants are the only
/// legal combinations of the three capability markers: replacement implies
/// both issuing and burning, and burning alone implies that issuing is
/// absent.
#[derive(Clone, Copy, Debug, PartialEq, Eq, Structural)]
pub enum Inflation {
    /// The supply is fixed at genesis.
    Fixed,
    /// The issuer may issue further units.
    Inflatable,
    /// Units may be burned, but never issued beyond genesis.
    Burnable,
    /// Units may be issued and burned.
    InflatableBurnable,
    /// Units may be issued and burned, and burned units replaced.
    Replaceable,
}

/// Failure to read an observed interface: its capability markers resolve to
/// a combination outside the legal inflation lattice, or it is not an
/// interface of the expected family.  Observed interfaces may originate from
/// untrusted contract data, so both are recoverable, typed conditions.
#[derive(Clone, Copy, Debug, PartialEq, Eq, Structural)]
pub enum IfaceError {
    /// The observed capability markers contradict one another.
    InconsistentCapabilities,
    /// The observed interface identifier belongs to no known composition of
    /// this family.
    IfaceMismatch,
}

impl Inflation {
    /// Whether the supply is fixed at genesis.
    pub open spec fn spec_is_fixed(self) -> bool {
        self is Fixed
    }

    /// Whether further units may be issued.
    pub open spec fn spec_is_inflatable(self) -> bool {
        self is Inflatable || self is InflatableBurnable || self is Replaceable
    }

    /// Whether units may be burned.
    pub open spec fn spec_is_burnable(self) -> bool {
        self is Burnable || self is InflatableBurnable || self is Replaceable
    }

    /// Whether burned units may be replaced.
    pub open spec fn spec_is_replaceable(self) -> bool {
        self is Replaceable
    }

    pub fn is_fixed(self) -> (r: bool)
        ensures
            r == self.spec_is_fixed(),
    {
        matches!(self, Inflation::Fixed)
    }

    pub fn is_inflatable(self) -> (r: bool)
        ensures
            r == self.spec_is_inflatable(),
    {
        matches!(
            self,
            Inflation::Inflatable | Inflation::InflatableBurnable | Inflation::Replaceable
        )
    }

    pub fn is_burnable(self) -> (r: bool)
        ensures
            r == self.spec_is_burnable(),
    {
        matches!(
            self,
            Inflation::Burnable | Inflation::InflatableBurnable | Inflation::Replaceable
        )
    }

    pub fn is_replaceable(self) -> (r: bool)
        ensures
            r == self.spec_is_replaceable(),
    {
        matches!(self, Inflation::Replaceable)
    }

    /// Resolves the three observed capability markers into an inflation
    /// regime, rejecting the combinations outside the legal lattice.
    pub fn from_flags(inflatable: bool, burnable: bool, replaceable: bool) -> (r: Result<
        Inflation,
        IfaceError,
    >)
        ensures
            r == spec_inflation_from_flags(inflatable, burnable, replaceable),
    {
        match (inflatable, burnable, replaceable) {
            (true, true, true) => Ok(Inflation::Replaceable),
            (true, true, false) => Ok(Inflation::InflatableBurnable),
            (false, true, false) => Ok(Inflation::Burnable),
            (true, false, false) => Ok(Inflation::Inflatable),
            (false, false, false) => Ok(Inflation::Fixed),
            _ => Err(IfaceError::InconsistentCapabilities),
        }
    }
}

/// The exhaustive marker table: which triples of (inflatable, burnable,
/// replaceable) are legal, and the regime each one denotes.  Replacement
/// without both issuing and burning is rejected, never coerced.
pub open spec fn spec_inflation_from_flags(
    inflatable: bool,
    burnable: bool,
    replaceable: bool,
) -> Result<Inflation, IfaceError> {
    match (inflatable, burnable, replaceable) {
        (true, true, true) => Ok(Inflation::Replaceable),
        (true, true, false) => Ok(Inflation::InflatableBurnable),
        (false, true, false) => Ok(Inflation::Burnable),
        (true, false, false) => Ok(Inflation::Inflatable),
        (false, false, false) => Ok(Inflation::Fixed),
        _ => Err(IfaceError::InconsistentCapabilities),
    }
}

/// Resolving the markers of a regime yields that regime back: the marker
/// table is inverse to the capability queries on every legal regime.
pub proof fn lemma_inflation_round_trip(m: Inflation)
    ensures
        spec_inflation_from_flags(
            m.spec_is_inflatable(),
            m.spec_is_burnable(),
            m.spec_is_replaceable(),
        ) == Ok::<Inflation, IfaceError>(m),
{
}

/// The optional capabilities carried by a composed or observed interface of
/// the fungible-token family.
#[derive(Clone, Copy, Debug, PartialEq, Eq, Structural)]
pub struct Features {
    /// The issuer may rename the asset.
    pub renaming: bool,
    /// The asset's inflation regime.
    pub inflation: Inflation,
}

/// The fragments that a feature selection composes, in the fixed canonical
/// order: the family base, then renaming, then the supply regime, then
/// burning, then replacement.  The order is part of the definition: the
/// canonical form, and therefore the identifier, depends on it.
pub open spec fn spec_rgb20_fragments(f: Features) -> Seq<Fragment> {
    seq![Fragment::NamedAsset, Fragment::Fungible] + (if f.renaming {
        seq![Fragment::Renameable]
    } else {
        Seq::empty()
    }) + (if f.inflation.spec_is_fixed() {
        seq![Fragment::Fixed]
    } else if f.inflation.spec_is_inflatable() {
        seq![Fragment::Inflatable]
    } else {
        Seq::empty()
    }) + (if f.inflation.spec_is_burnable() {
        seq![Fragment::Burnable]
    } else {
        Seq::empty()
    }) + (if f.inflation.spec_is_replaceable() {
        seq![Fragment::Replaceable]
    } else {
        Seq::empty()
    })
}

/// Extracting the capability markers of an observed interface's transition
/// names and resolving them through the marker table.
pub open spec fn spec_features(ts: Seq<Seq<char>>) -> Result<Features, IfaceError> {
    match spec_inflation_from_flags(
        ts.contains("issue"@),
        ts.contains("burn"@),
        ts.contains("replace"@),
    ) {
        Ok(inflation) => Ok(Features { renaming: ts.contains("rename"@), inflation }),
        Err(e) => Err(e),
    }
}

/// Whether a list of transition names declares the given name.
fn transitions_contain(ts: &Vec<String>, name: &str) -> (r: bool)
    ensures
        r == ts@.map_values(|s: String| s@).contains(name@),
{
    let ghost mapped = ts@.map_values(|s: String| s@);
    let mut i: usize = 0;
    while i < ts.len()
        invariant
            0 <= i <= ts.len(),
            mapped == ts@.map_values(|s: String| s@),
            forall|j: int| 0 <= j < i ==> mapped[j] != name@,
        decreases ts.len() - i,
    {
        if str_eq(ts[i].as_str(), name) {
            proof {
                assert(mapped[i as int] == name@);
            }
            return true;
        }
        i = i + 1;
    }
    proof {
        if mapped.contains(name@) {
            let j = choose|j: int| 0 <= j < mapped.len() && mapped[j] == name@;
            assert(false);
        }
    }
    false
}

/// A contract of the fungible-token family, read through an interface of
/// that family: the typed accessor layer over its untyped state.
#[derive(Debug)]
pub struct Rgb20(pub BoundContract);

impl Rgb20 {
    /// Composes the interface of the fungible-token family that carries the
    /// selected features, layering the optional fragments over the mandatory
    /// base in the fixed canonical order.
    pub fn iface(features: Features) -> (r: Iface)
        ensures
            r@ == spec_rgb20_fragments(features),
            r.wf(),
    {
        let mut iface = Iface::base(Fragment::NamedAsset);
        proof {
            assert(extend_check(iface@, Fragment::Fungible) is Ok);
        }
        iface = iface.expect_extended(Fragment::Fungible);
        proof {
            assert(iface@ =~= seq![Fragment::NamedAsset, Fragment::Fungible]);
        }
        if features.renaming {
            proof {
                assert(extend_check(iface@, Fragment::Renameable) is Ok);
            }
            iface = iface.expect_extended(Fragment::Renameable);
        }
        proof {
            assert(iface@ =~= seq![Fragment::NamedAsset, Fragment::Fungible] + (if features.renaming {
                seq![Fragment::Renameable]
            } else {
                Seq::<Fragment>::empty()
            }));
            assert(iface@.contains(Fragment::Fungible)) by {
                assert(iface@[1] == Fragment::Fungible);
            }
        }
        if features.inflation.is_fixed() {
            proof {
                assert(extend_check(iface@, Fragment::Fixed) is Ok);
            }
            iface = iface.expect_extended(Fragment::Fixed);
        } else if features.inflation.is_inflatable() {
            proof {
                assert(extend_check(iface@, Fragment::Inflatable) is Ok);
            }
            iface = iface.expect_extended(Fragment::Inflatable);
        }
        proof {
            assert(iface@ =~= seq![Fragment::NamedAsset, Fragment::Fungible] + (if features.renaming {
                seq![Fragment::Renameable]
            } else {
                Seq::<Fragment>::empty()
            }) + (if features.inflation.spec_is_fixed() {
                seq![Fragment::Fixed]
            } else if features.inflation.spec_is_inflatable() {
                seq![Fragment::Inflatable]
            } else {
                Seq::<Fragment>::empty()
            }));
            assert(iface@.contains(Fragment::Fungible)) by {
                assert(iface@[1] == Fragment::Fungible);
            }
        }
        if features.inflation.is_burnable() {
            proof {
                assert(extend_check(iface@, Fragment::Burnable) is Ok);
            }
            iface = iface.expect_extended(Fragment::Burnable);
        }
        proof {
            assert(iface@ =~= seq![Fragment::NamedAsset, Fragment::Fungible] + (if features.renaming {
                seq![Fragment::Renameable]
            } else {
                Seq::<Fragment>::empty()
            }) + (if features.inflation.spec_is_fixed() {
                seq![Fragment::Fixed]
            } else if features.inflation.spec_is_inflatable() {
                seq![Fragment::Inflatable]
            } else {
                Seq::<Fragment>::empty()
            }) + (if features.inflation.spec_is_burnable() {
                seq![Fragment::Burnable]
            } else {
                Seq::<Fragment>::empty()
            }));
            assert(iface@.contains(Fragment::Fungible)) by {
                assert(iface@[1] == Fragment::Fungible);
            }
            if features.inflation.spec_is_replaceable() {
                assert(iface@.contains(Fragment::Inflatable)) by {
                    assert(iface@[if features.renaming {
                        3int
                    } else {
                        2int
                    }] == Fragment::Inflatable);
                }
                assert(iface@.contains(Fragment::Burnable)) by {
                    assert(iface@[if features.renaming {
                        4int
                    } else {
                        3int
                    }] == Fragment::Burnable);
                }
            }
        }
        if features.inflation.is_replaceable() {
            proof {
                assert(extend_check(iface@, Fragment::Replaceable) is Ok);
            }
            iface = iface.expect_extended(Fragment::Replaceable);
        }
        proof {
            assert(iface@ =~= spec_rgb20_fragments(features));
        }
        iface
    }

    /// The identifier of the interface composed for this feature selection:
    /// callers derive identifiers only through this composition.
    pub fn iface_id(features: Features) -> (r: IfaceId)
        ensures
            r.0@ == digest_of(spec_canonical_bytes(spec_rgb20_fragments(features))),
    {
        Rgb20::iface(features).iface_id()
    }

    /// Infers which optional capabilities the observed interface carries by
    /// probing its declared transition names, and validates the combination
    /// against the legal inflation lattice.  A combination outside the
    /// lattice is rejected, never coerced.
    pub fn features(&self) -> (r: Result<Features, IfaceError>)
        ensures
            r == spec_features(self.0.transitions@.map_values(|s: String| s@)),
    {
        let renaming = transitions_contain(&self.0.transitions, "rename");
        let inflatable = transitions_contain(&self.0.transitions, "issue");
        let burnable = transitions_contain(&self.0.transitions, "burn");
        let replaceable = transitions_contain(&self.0.transitions, "replace");
        match Inflation::from_flags(inflatable, burnable, replaceable) {
            Ok(inflation) => Ok(Features { renaming, inflation }),
            Err(e) => Err(e),
        }
    }

    /// The values of a named global-state slot of the bound contract.
    pub open spec fn spec_global(self, name: Seq<char>) -> Option<Seq<GlobalValue>> {
        lookup_global(self.0.state.globals@, name)
    }

    /// Whether the bound contract carries the mandatory asset specification.
    pub open spec fn has_asset_spec(self) -> bool {
        &&& self.spec_global("spec"@) matches Some(vs)
        &&& vs.len() >= 1
        &&& vs[0] is Asset
    }

    /// The asset specification the bound contract carries.
    pub open spec fn spec_asset(self) -> AssetSpec {
        self.spec_global("spec"@).unwrap()[0]->Asset_0
    }

    /// The nominal asset specification.  The interface requires the global
    /// slot named "spec": its absence means the contract was bound to the
    /// wrong interface, a caller defect this accessor does not tolerate.
    pub fn spec(&self) -> (r: AssetSpec)
        requires
            self.has_asset_spec(),
        ensures
            r == self.spec_asset(),
    {
        match self.0.state.global("spec") {
            Some(values) => match &values[0] {
                GlobalValue::Asset(a) => a.clone(),
                _ => unreached(),
            },
            None => unreached(),
        }
    }

    /// Whether the bound contract carries the mandatory contract terms.
    pub open spec fn has_terms(self) -> bool {
        &&& self.spec_global("terms"@) matches Some(vs)
        &&& vs.len() >= 1
        &&& vs[0] is Terms
    }

    /// The contract terms the bound contract carries.
    pub open spec fn spec_terms(self) -> ContractTerms {
        self.spec_global("terms"@).unwrap()[0]->Terms_0
    }

    /// The contract terms.  The interface requires the global slot named
    /// "terms"; its absence is a caller defect.
    pub fn contract_terms(&self) -> (r: ContractTerms)
        requires
            self.has_terms(),
        ensures
            r == self.spec_terms(),
    {
        match self.0.state.global("terms") {
            Some(values) => match &values[0] {
                GlobalValue::Terms(t) => t.clone(),
                _ => unreached(),
            },
            None => unreached(),
        }
    }

    /// Whether the mandatory issued-supply slot is present, holds amounts
    /// only, and sums within the machine word.
    pub open spec fn issued_wf(self) -> bool {
        &&& self.spec_global("issuedSupply"@) matches Some(vs)
        &&& all_amounts(vs)
        &&& amount_sum(amounts_of(vs)) <= u64::MAX
    }

    /// The total supply ever issued, as recorded by the contract.
    pub open spec fn spec_issued(self) -> int {
        amount_sum(amounts_of(self.spec_global("issuedSupply"@).unwrap()))
    }

    /// Whether an optional supply slot, when present, holds amounts only
    /// and sums within the machine word.
    pub open spec fn optional_supply_wf(self, name: Seq<char>) -> bool {
        match self.spec_global(name) {
            Some(vs) => all_amounts(vs) && amount_sum(amounts_of(vs)) <= u64::MAX,
            None => true,
        }
    }

    /// The total recorded in an optional supply slot, zero when the slot is
    /// absent.
    pub open spec fn spec_optional_supply(self, name: Seq<char>) -> int {
        match self.spec_global(name) {
            Some(vs) => amount_sum(amounts_of(vs)),
            None => 0,
        }
    }

    /// The sum of all issues recorded in the mandatory "issuedSupply" slot.
    /// Its absence is a caller defect.
    pub fn total_issued_supply(&self) -> (r: Amount)
        requires
            self.issued_wf(),
        ensures
            r.0 == self.spec_issued(),
    {
        match self.0.state.global("issuedSupply") {
            Some(values) => sum_amount_values(values),
            None => unreached(),
        }
    }

    /// The sum of all burns recorded in the "burnedSupply" slot; a contract
    /// without that slot has burned nothing.
    pub fn total_burned_supply(&self) -> (r: Amount)
        requires
            self.optional_supply_wf("burnedSupply"@),
        ensures
            r.0 == self.spec_optional_supply("burnedSupply"@),
    {
        match self.0.state.global("burnedSupply") {
            Some(values) => sum_amount_values(values),
            None => Amount(0),
        }
    }

    /// The sum of all replacements recorded in the "replacedSupply" slot; a
    /// contract without that slot has replaced nothing.
    pub fn total_replaced_supply(&self) -> (r: Amount)
        requires
            self.optional_supply_wf("replacedSupply"@),
        ensures
            r.0 == self.spec_optional_supply("replacedSupply"@),
    {
        match self.0.state.global("replacedSupply") {
            Some(values) => sum_amount_values(values),
            None => Amount(0),
        }
    }

    /// The supply currently in circulation: issued less burned.  A burned
    /// total exceeding the issued total indicates corrupt state; the
    /// operation signals it instead of wrapping around.
    pub fn total_supply(&self) -> (r: Result<Amount, SupplyError>)
        requires
            self.issued_wf(),
            self.optional_supply_wf("burnedSupply"@),
        ensures
            match r {
                Ok(a) => self.spec_optional_supply("burnedSupply"@) <= self.spec_issued() && a.0
                    == self.spec_issued() - self.spec_optional_supply("burnedSupply"@),
                Err(e) => e == SupplyError::Underflow && self.spec_optional_supply("burnedSupply"@)
                    > self.spec_issued(),
            },
    {
        self.total_issued_supply().checked_sub(self.total_burned_supply())
    }

    /// The fungible allocations of a named owned-state slot of the bound
    /// contract.
    pub open spec fn spec_fungible(self, name: Seq<char>) -> Option<Seq<FungibleAllocation>> {
        lookup_fungible(self.0.state.fungible@, name)
    }

    /// The rights allocations of a named owned-state slot.
    pub open spec fn spec_rights(self, name: Seq<char>) -> Option<Seq<RightsAllocation>> {
        lookup_rights(self.0.state.rights@, name)
    }

    /// The asset-owner allocations that pass the filter, in the store's
    /// enumeration order.
    pub open spec fn spec_allocations(self, filter: &OutpointFilter) -> Seq<FungibleAllocation> {
        filter_fungible(self.spec_fungible("assetOwner"@).unwrap(), filter)
    }

    /// The asset allocations owned by outpoints passing the filter.  The
    /// interface requires the owned-state slot named "assetOwner"; its
    /// absence is a caller defect.
    pub fn allocations(&self, filter: &OutpointFilter) -> (r: Vec<FungibleAllocation>)
        requires
            self.spec_fungible("assetOwner"@) is Some,
        ensures
            r@ == self.spec_allocations(filter),
    {
        match self.0.state.fungible("assetOwner", filter) {
            Some(v) => v,
            None => unreached(),
        }
    }

    /// The inflation allowances owned by outpoints passing the filter.  The
    /// interface requires the owned-state slot named "inflationAllowance";
    /// its absence is a caller defect.
    pub fn inflation_allowance_allocations(&self, filter: &OutpointFilter) -> (r: Vec<
        FungibleAllocation,
    >)
        requires
            self.spec_fungible("inflationAllowance"@) is Some,
        ensures
            r@ == filter_fungible(self.spec_fungible("inflationAllowance"@).unwrap(), filter),
    {
        match self.0.state.fungible("inflationAllowance", filter) {
            Some(v) => v,
            None => unreached(),
        }
    }

    /// The rename rights owned by outpoints passing the filter.  The
    /// interface requires the owned-state slot named "updateRight"; its
    /// absence is a caller defect.
    pub fn update_right(&self, filter: &OutpointFilter) -> (r: Vec<RightsAllocation>)
        requires
            self.spec_rights("updateRight"@) is Some,
        ensures
            r@ == filter_rights(self.spec_rights("updateRight"@).unwrap(), filter),
    {
        match self.0.state.rights("updateRight", filter) {
            Some(v) => v,
            None => unreached(),
        }
    }

    /// The burn-epoch rights owned by outpoints passing the filter.  The
    /// interface requires the owned-state slot named "burnEpoch"; its
    /// absence is a caller defect.
    pub fn burn_epoch(&self, filter: &OutpointFilter) -> (r: Vec<RightsAllocation>)
        requires
            self.spec_rights("burnEpoch"@) is Some,
        ensures
            r@ == filter_rights(self.spec_rights("burnEpoch"@).unwrap(), filter),
    {
        match self.0.state.rights("burnEpoch", filter) {
            Some(v) => v,
            None => unreached(),
        }
    }

    /// The burn rights owned by outpoints passing the filter.  The interface
    /// requires the owned-state slot named "burnRight"; its absence is a
    /// caller defect.
    pub fn burn_right(&self, filter: &OutpointFilter) -> (r: Vec<RightsAllocation>)
        requires
            self.spec_rights("burnRight"@) is Some,
        ensures
            r@ == filter_rights(self.spec_rights("burnRight"@).unwrap(), filter),
    {
        match self.0.state.rights("burnRight", filter) {
            Some(v) => v,
            None => unreached(),
        }
    }

    /// The sum of the asset allocations that pass the filter: exactly the
    /// matched values and no others.  The caller guarantees the matched
    /// total fits the machine word; its overflow is a fatal condition.
    pub fn balance(&self, filter: &OutpointFilter) -> (r: Amount)
        requires
            self.spec_fungible("assetOwner"@) is Some,
            amount_sum(alloc_amounts(self.spec_allocations(filter))) <= u64::MAX,
        ensures
            r.0 == amount_sum(alloc_amounts(self.spec_allocations(filter))),
    {
        let allocs = self.allocations(filter);
        let mut amounts: Vec<Amount> = Vec::new();
        let mut i: usize = 0;
        while i < allocs.len()
            invariant
                0 <= i <= allocs.len(),
                amounts@ =~= alloc_amounts(allocs@.take(i as int)),
            decreases allocs.len() - i,
        {
            amounts.push(allocs[i].state);
            proof {
                assert(amounts@ =~= alloc_amounts(allocs@.take(i + 1)));
            }
            i = i + 1;
        }
        proof {
            assert(allocs@.take(allocs@.len() as int) =~= allocs@);
        }
        sum_amounts(&amounts)
    }

    /// The raw operation records of a named fungible slot of the bound
    /// contract.
    pub open spec fn spec_ops(self, name: Seq<char>) -> Option<Seq<crate::state::FungibleOpRecord>> {
        lookup_ops(self.0.state.ops@, name)
    }

    /// The transfer history restricted to these filters, keyed by witness.
    pub open spec fn spec_transfer_history(
        self,
        witness_filter: &WitnessFilter,
        outpoint_filter: &OutpointFilter,
    ) -> Map<WitnessId, AmountChange> {
        history_map(self.spec_ops("assetOwner"@).unwrap(), witness_filter, outpoint_filter)
    }

    /// The per-witness operation history of the asset-owner slot, restricted
    /// to records passing both filters: at most one entry per distinct
    /// witness identifier, the last record reported by the store winning.
    /// The slot's absence is a caller defect.
    pub fn transfer_history(
        &self,
        witness_filter: &WitnessFilter,
        outpoint_filter: &OutpointFilter,
    ) -> (r: HashMap<WitnessId, AmountChange>)
        requires
            self.spec_ops("assetOwner"@) is Some,
        ensures
            r@ == self.spec_transfer_history(witness_filter, outpoint_filter),
    {
        match self.0.state.fungible_ops("assetOwner", witness_filter, outpoint_filter) {
            Some(m) => m,
            None => unreached(),
        }
    }

    /// Whether every slot the summary reads is present and well formed, and
    /// the observed capabilities resolve within the legal lattice.
    pub open spec fn info_wf(self) -> bool {
        &&& self.has_asset_spec()
        &&& self.has_terms()
        &&& self.issued_wf()
        &&& self.optional_supply_wf("burnedSupply"@)
        &&& self.optional_supply_wf("replacedSupply"@)
        &&& spec_features(self.0.transitions@.map_values(|s: String| s@)) is Ok
    }

    /// A self-contained summary of the asset: its specification, terms,
    /// capabilities and supply totals, extracted afresh from the bound
    /// contract.
    pub fn info(&self) -> (r: Rgb20Info)
        requires
            self.info_wf(),
        ensures
            r.ticker == self.spec_asset().ticker,
            r.name == self.spec_asset().name,
            r.details == self.spec_asset().details,
            r.precision == self.spec_asset().precision,
            r.terms == self.spec_terms().text,
            r.attach == self.spec_terms().media,
            Ok::<Features, IfaceError>(r.features) == spec_features(
                self.0.transitions@.map_values(|s: String| s@),
            ),
            r.issued.0 == self.spec_issued(),
            r.burned.0 == self.spec_optional_supply("burnedSupply"@),
            r.replaced.0 == self.spec_optional_supply("replacedSupply"@),
    {
        let asset = self.spec();
        let terms = self.contract_terms();
        let features = match self.features() {
            Ok(f) => f,
            Err(_) => unreached(),
        };
        Rgb20Info {
            ticker: asset.ticker,
            name: asset.name,
            details: asset.details,
            precision: asset.precision,
            terms: terms.text,
            attach: terms.media,
            features,
            issued: self.total_issued_supply(),
            burned: self.total_burned_supply(),
            replaced: self.total_replaced_supply(),
        }
    }
}

/// A self-contained summary of a fungible asset, derived fresh from a bound
/// contract on each request.
#[derive(Debug)]
pub struct Rgb20Info {
    pub ticker: String,
    pub name: String,
    pub details: Option<String>,
    pub precision: u8,
    pub terms: String,
    pub attach: Option<Attachment>,
    pub features: Features,
    pub issued: Amount,
    pub burned: Amount,
    pub replaced: Amount,
}


/// Which fragments a feature selection of the fungible-token family
/// enables.
pub open spec fn rgb20_enabled(f: Features, g: Fragment) -> bool {
    match g {
        Fragment::NamedAsset => true,
        Fragment::NamedContract => false,
        Fragment::Fungible => true,
        Fragment::Renameable => f.renaming,
        Fragment::Fixed => f.inflation.spec_is_fixed(),
        Fragment::Inflatable => f.inflation.spec_is_inflatable(),
        Fragment::Burnable => f.inflation.spec_is_burnable(),
        Fragment::Replaceable => f.inflation.spec_is_replaceable(),
    }
}

/// However the feature fields were set, the composition holds exactly the
/// enabled fragments, and applies them in the one canonical order: the
/// fragment codes strictly increase along the composition.
pub proof fn lemma_canonical_order(f: Features)
    ensures
        forall|g: Fragment| #[trigger] spec_rgb20_fragments(f).contains(g) <==> rgb20_enabled(
            f,
            g,
        ),
        forall|i: int, j: int|
            0 <= i < j < spec_rgb20_fragments(f).len() ==> fragment_code(
                spec_rgb20_fragments(f)[i],
            ) < fragment_code(spec_rgb20_fragments(f)[j]),
{
    let s = spec_rgb20_fragments(f);
    assert forall|g: Fragment| #[trigger] s.contains(g) implies rgb20_enabled(f, g) by {
        let i = choose|i: int| 0 <= i < s.len() && s[i] == g;
    }
    assert forall|g: Fragment| rgb20_enabled(f, g) implies s.contains(g) by {
        assert(s[0] == Fragment::NamedAsset);
        assert(s[1] == Fragment::Fungible);
        if f.renaming {
            assert(s[2] == Fragment::Renameable);
        }
        let k: int = if f.renaming { 3 } else { 2 };
        if f.inflation.spec_is_fixed() {
            assert(s[k] == Fragment::Fixed);
        } else if f.inflation.spec_is_inflatable() {
            assert(s[k] == Fragment::Inflatable);
        }
        if f.inflation.spec_is_burnable() {
            if f.inflation.spec_is_inflatable() {
                assert(s[k + 1] == Fragment::Burnable);
            } else {
                assert(s[k] == Fragment::Burnable);
            }
        }
        if f.inflation.spec_is_replaceable() {
            assert(s[k + 2] == Fragment::Replaceable);
        }
    }
}

/// Composing one feature selection twice yields identical identifiers,
/// byte for byte: the identifier is a function of the selection alone.
pub proof fn lemma_iface_id_deterministic(f: Features, a: Iface, b: Iface)
    requires
        a@ == spec_rgb20_fragments(f),
        b@ == spec_rgb20_fragments(f),
    ensures
        digest_of(spec_canonical_bytes(a@)) == digest_of(spec_canonical_bytes(b@)),
{
}

/// Round trip: extracting the features of an interface composed for any
/// feature selection yields that selection back, for every renaming choice
/// and every legal inflation regime.
pub proof fn lemma_features_round_trip(f: Features)
    ensures
        spec_features(spec_transitions(spec_rgb20_fragments(f))) == Ok::<Features, IfaceError>(f),
{
    let s = spec_rgb20_fragments(f);
    let ts = spec_transitions(s);
    lemma_canonical_order(f);
    lemma_transitions_markers(s);
    assert(ts.contains("rename"@) == f.renaming);
    assert(ts.contains("issue"@) == f.inflation.spec_is_inflatable());
    assert(ts.contains("burn"@) == f.inflation.spec_is_burnable());
    assert(ts.contains("replace"@) == f.inflation.spec_is_replaceable());
    lemma_inflation_round_trip(f.inflation);
}

} // verus!
