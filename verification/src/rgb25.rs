//! The named-collectible interface family: capability composition and typed
//! access to the state of a bound contract.

use vstd::prelude::*;

use crate::amount::{amount_sum, Amount};
use crate::iface::{
    digest_of, extend_check, spec_canonical_bytes, Fragment, Iface, IfaceId,
};
use crate::rgb20::IfaceError;
use crate::state::{
    all_amounts, amounts_of, lookup_global, sum_amount_values, BoundContract, ContractTerms,
    GlobalValue,
};

verus! {

/// The optional capabilities carried by an interface of the
/// named-collectible family: this family composes a simple burnable flag in
/// place of the fungible family's full inflation lattice.
#[derive(Clone, Copy, Debug, PartialEq, Eq, Structural)]
pub struct Features {
    /// The issuer may rename the contract.
    pub renaming: bool,
    /// Asset units may be burned.
    pub burnable: bool,
}

/// The fragments that a feature selection of the named-collectible family
/// composes, in the fixed canonical order: the family base, then renaming,
/// then burning.
pub open spec fn spec_rgb25_fragments(f: Features) -> Seq<Fragment> {
    seq![Fragment::NamedContract, Fragment::Fungible] + (if f.renaming {
        seq![Fragment::Renameable]
    } else {
        Seq::empty()
    }) + (if f.burnable {
        seq![Fragment::Burnable]
    } else {
        Seq::empty()
    })
}

/// Whether an identifier belongs to a known composition of this family: the
/// minimal composition, or the fully featured one.
pub open spec fn rgb25_known_id(id: Seq<u8>) -> bool {
    ||| id == digest_of(
        spec_canonical_bytes(spec_rgb25_fragments(Features { renaming: false, burnable: false })),
    )
    ||| id == digest_of(
        spec_canonical_bytes(spec_rgb25_fragments(Features { renaming: true, burnable: true })),
    )
}

/// A contract of the named-collectible family, read through an interface of
/// that family: the typed accessor layer over its untyped state.
#[derive(Debug)]
pub struct Rgb25(pub BoundContract);

impl Rgb25 {
    /// Composes the interface of the named-collectible family that carries
    /// the selected features, layering the optional fragments over the
    /// mandatory base in the fixed canonical order.
    pub fn iface(features: Features) -> (r: Iface)
        ensures
            r@ == spec_rgb25_fragments(features),
            r.wf(),
    {
        let mut iface = Iface::base(Fragment::NamedContract);
        proof {
            assert(extend_check(iface@, Fragment::Fungible) is Ok);
        }
        iface = iface.expect_extended(Fragment::Fungible);
        proof {
            assert(iface@ =~= seq![Fragment::NamedContract, Fragment::Fungible]);
        }
        if features.renaming {
            proof {
                assert(extend_check(iface@, Fragment::Renameable) is Ok);
            }
            iface = iface.expect_extended(Fragment::Renameable);
        }
        proof {
            assert(iface@ =~= seq![Fragment::NamedContract, Fragment::Fungible]
                + (if features.renaming {
                seq![Fragment::Renameable]
            } else {
                Seq::<Fragment>::empty()
            }));
            assert(iface@.contains(Fragment::Fungible)) by {
                assert(iface@[1] == Fragment::Fungible);
            }
        }
        if features.burnable {
            proof {
                assert(extend_check(iface@, Fragment::Burnable) is Ok);
            }
            iface = iface.expect_extended(Fragment::Burnable);
        }
        proof {
            assert(iface@ =~= spec_rgb25_fragments(features));
        }
        iface
    }

    /// The identifier of the interface composed for this feature selection.
    pub fn iface_id(features: Features) -> (r: IfaceId)
        ensures
            r.0@ == digest_of(spec_canonical_bytes(spec_rgb25_fragments(features))),
    {
        Rgb25::iface(features).iface_id()
    }

    /// Binds a contract to this family after checking that its observed
    /// interface identifier belongs to a known composition of the family; a
    /// contract read through any other interface is rejected with a typed
    /// error, since the pairing arrives from outside.
    pub fn from(contract: BoundContract) -> (r: Result<Rgb25, IfaceError>)
        ensures
            match r {
                Ok(w) => rgb25_known_id(contract.iface_id.0@) && w.0 == contract,
                Err(e) => e == IfaceError::IfaceMismatch && !rgb25_known_id(contract.iface_id.0@),
            },
    {
        let base_id = Rgb25::iface_id(Features { renaming: false, burnable: false });
        let full_id = Rgb25::iface_id(Features { renaming: true, burnable: true });
        if contract.iface_id.equals(&base_id) || contract.iface_id.equals(&full_id) {
            Ok(Rgb25(contract))
        } else {
            Err(IfaceError::IfaceMismatch)
        }
    }

    /// The values of a named global-state slot of the bound contract.
    pub open spec fn spec_global(self, name: Seq<char>) -> Option<Seq<GlobalValue>> {
        lookup_global(self.0.state.globals@, name)
    }

    /// Whether the bound contract carries the mandatory contract name.
    pub open spec fn has_name(self) -> bool {
        &&& self.spec_global("name"@) matches Some(vs)
        &&& vs.len() >= 1
        &&& vs[0] is Name
    }

    /// The contract name the bound contract carries.
    pub open spec fn spec_name(self) -> String {
        self.spec_global("name"@).unwrap()[0]->Name_0
    }

    /// The contract name.  The interface requires the global slot named
    /// "name"; its absence means the contract was bound to the wrong
    /// interface, a caller defect this accessor does not tolerate.
    pub fn name(&self) -> (r: String)
        requires
            self.has_name(),
        ensures
            r == self.spec_name(),
    {
        match self.0.state.global("name") {
            Some(values) => match &values[0] {
                GlobalValue::Name(n) => n.clone(),
                _ => unreached(),
            },
            None => unreached(),
        }
    }

    /// Whether the details slot is declared and, when non-empty, holds
    /// details text first.
    pub open spec fn details_wf(self) -> bool {
        &&& self.spec_global("details"@) matches Some(vs)
        &&& vs.len() >= 1 ==> vs[0] is Details
    }

    /// The optional details text: the slot must be declared, and an empty
    /// slot means no details were set.
    pub fn details(&self) -> (r: Option<String>)
        requires
            self.details_wf(),
        ensures
            match r {
                Some(d) => self.spec_global("details"@).unwrap().len() >= 1 && d == self.spec_global(
                    "details"@,
                ).unwrap()[0]->Details_0,
                None => self.spec_global("details"@).unwrap().len() == 0,
            },
    {
        match self.0.state.global("details") {
            Some(values) => {
                if values.len() == 0 {
                    None
                } else {
                    match &values[0] {
                        GlobalValue::Details(d) => Some(d.clone()),
                        _ => unreached(),
                    }
                }
            },
            None => unreached(),
        }
    }

    /// Whether the bound contract carries the mandatory decimal precision.
    pub open spec fn has_precision(self) -> bool {
        &&& self.spec_global("precision"@) matches Some(vs)
        &&& vs.len() >= 1
        &&& vs[0] is Precision
    }

    /// The decimal precision the bound contract carries.
    pub open spec fn spec_precision(self) -> u8 {
        self.spec_global("precision"@).unwrap()[0]->Precision_0
    }

    /// The decimal precision of the asset's units.  The interface requires
    /// the global slot named "precision"; its absence is a caller defect.
    pub fn precision(&self) -> (r: u8)
        requires
            self.has_precision(),
        ensures
            r == self.spec_precision(),
    {
        match self.0.state.global("precision") {
            Some(values) => match &values[0] {
                GlobalValue::Precision(p) => *p,
                _ => unreached(),
            },
            None => unreached(),
        }
    }

    /// Whether the mandatory issued-supply slot is present, holds amounts
    /// only, and sums within the machine word.
    pub open spec fn issued_wf(self) -> bool {
        &&& self.spec_global("issuedSupply"@) matches Some(vs)
        &&& all_amounts(vs)
        &&& amount_sum(amounts_of(vs)) <= u64::MAX
    }

    /// The total supply ever issued, as recorded by the contract.
    pub open spec fn spec_issued(self) -> int {
        amount_sum(amounts_of(self.spec_global("issuedSupply"@).unwrap()))
    }

    /// Whether the optional burned-supply slot, when present, holds amounts
    /// only and sums within the machine word.
    pub open spec fn burned_wf(self) -> bool {
        match self.spec_global("burnedSupply"@) {
            Some(vs) => all_amounts(vs) && amount_sum(amounts_of(vs)) <= u64::MAX,
            None => true,
        }
    }

    /// The total burned, zero when the slot is absent.
    pub open spec fn spec_burned(self) -> int {
        match self.spec_global("burnedSupply"@) {
            Some(vs) => amount_sum(amounts_of(vs)),
            None => 0,
        }
    }

    /// The sum of all issues recorded in the mandatory "issuedSupply" slot.
    /// Its absence is a caller defect.
    pub fn total_issued_supply(&self) -> (r: Amount)
        requires
            self.issued_wf(),
        ensures
            r.0 == self.spec_issued(),
    {
        match self.0.state.global("issuedSupply") {
            Some(values) => sum_amount_values(values),
            None => unreached(),
        }
    }

    /// The sum of all burns recorded in the "burnedSupply" slot; a contract
    /// without that slot has burned nothing.
    pub fn total_burned_supply(&self) -> (r: Amount)
        requires
            self.burned_wf(),
        ensures
            r.0 == self.spec_burned(),
    {
        match self.0.state.global("burnedSupply") {
            Some(values) => sum_amount_values(values),
            None => Amount(0),
        }
    }

    /// Whether the bound contract carries the mandatory contract terms.
    pub open spec fn has_terms(self) -> bool {
        &&& self.spec_global("terms"@) matches Some(vs)
        &&& vs.len() >= 1
        &&& vs[0] is Terms
    }

    /// The contract terms the bound contract carries.
    pub open spec fn spec_terms(self) -> ContractTerms {
        self.spec_global("terms"@).unwrap()[0]->Terms_0
    }

    /// The contract terms.  The interface requires the global slot named
    /// "terms"; its absence is a caller defect.
    pub fn contract_terms(&self) -> (r: ContractTerms)
        requires
            self.has_terms(),
        ensures
            r == self.spec_terms(),
    {
        match self.0.state.global("terms") {
            Some(values) => match &values[0] {
                GlobalValue::Terms(t) => t.clone(),
                _ => unreached(),
            },
            None => unreached(),
        }
    }
}

/// Composing one feature selection of this family twice yields identical
/// identifiers, byte for byte.
pub proof fn lemma_rgb25_iface_id_deterministic(f: Features, a: Iface, b: Iface)
    requires
        a@ == spec_rgb25_fragments(f),
        b@ == spec_rgb25_fragments(f),
    ensures
        digest_of(spec_canonical_bytes(a@)) == digest_of(spec_canonical_bytes(b@)),
{
}

} // verus!
