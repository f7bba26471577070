use rgb_ifaces::iface::{Fragment, Iface, SchemaError};
use rgb_ifaces::rgb20::{Features, IfaceError, Inflation, Rgb20};
use rgb_ifaces::rgb25;
use rgb_ifaces::rgb25::Rgb25;
use rgb_ifaces::state::{BoundContract, ContractState};

fn empty_state() -> ContractState {
    ContractState { globals: vec![], fungible: vec![], rights: vec![], ops: vec![] }
}

fn observed(transitions: Vec<&str>) -> BoundContract {
    BoundContract {
        iface_id: rgb_ifaces::iface::IfaceId([0u8; 32]),
        transitions: transitions.into_iter().map(|s| s.to_string()).collect(),
        state: empty_state(),
    }
}

fn all_features() -> Vec<Features> {
    let modes = [
        Inflation::Fixed,
        Inflation::Inflatable,
        Inflation::Burnable,
        Inflation::InflatableBurnable,
        Inflation::Replaceable,
    ];
    let mut out = Vec::new();
    for renaming in [false, true] {
        for inflation in modes {
            out.push(Features { renaming, inflation });
        }
    }
    out
}

#[test]
fn iface_id_deterministic_for_every_selection() {
    for f in all_features() {
        let id1 = Rgb20::iface_id(f);
        let id2 = Rgb20::iface_id(f);
        assert_eq!(id1.0, id2.0, "identifier must be byte-for-byte stable");
    }
}

#[test]
fn composition_order_is_canonical() {
    let f = Features { renaming: true, inflation: Inflation::InflatableBurnable };
    let iface = Rgb20::iface(f);
    assert_eq!(
        iface.fragments().as_slice(),
        &[
            Fragment::NamedAsset,
            Fragment::Fungible,
            Fragment::Renameable,
            Fragment::Inflatable,
            Fragment::Burnable,
        ]
    );
    let again = Rgb20::iface(f);
    assert_eq!(iface.fragments(), again.fragments());
}

#[test]
fn fixed_composition_has_fixed_fragment_and_no_inflation() {
    let f = Features { renaming: false, inflation: Inflation::Fixed };
    let iface = Rgb20::iface(f);
    assert_eq!(
        iface.fragments().as_slice(),
        &[Fragment::NamedAsset, Fragment::Fungible, Fragment::Fixed]
    );
    assert!(iface.has_transition("transfer"));
    assert!(!iface.has_transition("issue"));
    assert!(!iface.has_transition("burn"));
    assert!(!iface.has_transition("replace"));
    assert!(!iface.has_transition("rename"));
}

#[test]
fn replaceable_composition_declares_all_markers() {
    let f = Features { renaming: false, inflation: Inflation::Replaceable };
    let iface = Rgb20::iface(f);
    assert_eq!(
        iface.fragments().as_slice(),
        &[
            Fragment::NamedAsset,
            Fragment::Fungible,
            Fragment::Inflatable,
            Fragment::Burnable,
            Fragment::Replaceable,
        ]
    );
    assert_eq!(
        iface.transitions(),
        vec!["transfer".to_string(), "issue".to_string(), "burn".to_string(), "replace".to_string()]
    );
}

#[test]
fn iface_id_matches_digest_of_canonical_structure() {
    // SHA-256 of the canonical bytes 01 03 05 (named asset, fungible, fixed).
    let expected: [u8; 32] = [
        0x62, 0x46, 0x76, 0x91, 0xcf, 0x58, 0x3d, 0x4f, 0xa7, 0x8b, 0x18, 0xfa, 0xfa, 0xf9, 0x80,
        0x1f, 0x50, 0x5e, 0x0e, 0xf0, 0x3b, 0xaf, 0x06, 0x03, 0xfd, 0x4b, 0x0c, 0xd0, 0x04, 0xcd,
        0x1e, 0x75,
    ];
    let id = Rgb20::iface_id(Features { renaming: false, inflation: Inflation::Fixed });
    assert_eq!(id.0, expected);

    // SHA-256 of the canonical bytes 02 03 (named contract, fungible).
    let expected25: [u8; 32] = [
        0xee, 0x90, 0x40, 0xf6, 0x5c, 0x34, 0x18, 0x55, 0xe0, 0x70, 0xff, 0x43, 0x8e, 0xb0, 0xea,
        0x9d, 0x5b, 0x83, 0x1b, 0x2a, 0x2c, 0x27, 0x0f, 0xb7, 0xef, 0x59, 0x2d, 0x75, 0x04, 0x08,
        0xe3, 0xb3,
    ];
    let id25 = Rgb25::iface_id(rgb25::Features { renaming: false, burnable: false });
    assert_eq!(id25.0, expected25);
}

#[test]
fn iface_ids_differ_between_selections_and_families() {
    let fixed = Rgb20::iface_id(Features { renaming: false, inflation: Inflation::Fixed });
    let inflatable =
        Rgb20::iface_id(Features { renaming: false, inflation: Inflation::Inflatable });
    let renamed = Rgb20::iface_id(Features { renaming: true, inflation: Inflation::Fixed });
    let collectible = Rgb25::iface_id(rgb25::Features { renaming: false, burnable: false });
    assert_ne!(fixed.0, inflatable.0);
    assert_ne!(fixed.0, renamed.0);
    assert_ne!(fixed.0, collectible.0);
}

#[test]
fn features_round_trip_for_all_selections() {
    for f in all_features() {
        let iface = Rgb20::iface(f);
        let contract = Rgb20(observed(iface.transitions().iter().map(|s| s.as_str()).collect()));
        assert_eq!(contract.features(), Ok(f), "round trip failed for {:?}", f);
    }
}

#[test]
fn replaceable_without_burn_is_rejected() {
    // Markers (inflatable=true, burnable=false, replaceable=true).
    let contract = Rgb20(observed(vec!["transfer", "issue", "replace"]));
    assert_eq!(contract.features(), Err(IfaceError::InconsistentCapabilities));
    // Markers (inflatable=false, burnable=false, replaceable=true).
    let contract = Rgb20(observed(vec!["transfer", "replace"]));
    assert_eq!(contract.features(), Err(IfaceError::InconsistentCapabilities));
    // Markers (inflatable=false, burnable=true, replaceable=true).
    let contract = Rgb20(observed(vec!["transfer", "burn", "replace"]));
    assert_eq!(contract.features(), Err(IfaceError::InconsistentCapabilities));
}

#[test]
fn extraction_accepts_all_legal_marker_rows() {
    let cases = [
        (vec!["transfer"], Inflation::Fixed),
        (vec!["transfer", "issue"], Inflation::Inflatable),
        (vec!["transfer", "burn"], Inflation::Burnable),
        (vec!["transfer", "issue", "burn"], Inflation::InflatableBurnable),
        (vec!["transfer", "issue", "burn", "replace"], Inflation::Replaceable),
    ];
    for (names, mode) in cases {
        let contract = Rgb20(observed(names));
        assert_eq!(
            contract.features(),
            Ok(Features { renaming: false, inflation: mode })
        );
    }
    let contract = Rgb20(observed(vec!["transfer", "rename"]));
    assert_eq!(
        contract.features(),
        Ok(Features { renaming: true, inflation: Inflation::Fixed })
    );
}

#[test]
fn extension_preconditions_fail_fast() {
    // A base fragment can never extend another interface.
    let base = Iface::with_base(Fragment::NamedAsset).unwrap();
    assert_eq!(
        base.clone().extended(Fragment::NamedContract).unwrap_err(),
        SchemaError::BaseNotExtension
    );
    // Replacement needs both issuing and burning already present.
    let fungible = base.clone().extended(Fragment::Fungible).unwrap();
    assert_eq!(
        fungible.clone().extended(Fragment::Replaceable).unwrap_err(),
        SchemaError::UnmetPrecondition
    );
    // A fixed supply contradicts inflation.
    let inflatable = fungible.clone().extended(Fragment::Inflatable).unwrap();
    assert_eq!(
        inflatable.clone().extended(Fragment::Fixed).unwrap_err(),
        SchemaError::ConflictingCapability
    );
    // The same fragment cannot be layered twice.
    assert_eq!(
        inflatable.clone().extended(Fragment::Inflatable).unwrap_err(),
        SchemaError::AlreadyExtended
    );
    // Capabilities require the fungible base below them.
    assert_eq!(base.extended(Fragment::Burnable).unwrap_err(), SchemaError::UnmetPrecondition);
    // Only a family base can start a composition.
    assert_eq!(Iface::with_base(Fragment::Fungible).unwrap_err(), SchemaError::NotABase);
}

#[test]
fn rgb25_composition_order() {
    let iface = Rgb25::iface(rgb25::Features { renaming: true, burnable: true });
    assert_eq!(
        iface.fragments().as_slice(),
        &[
            Fragment::NamedContract,
            Fragment::Fungible,
            Fragment::Renameable,
            Fragment::Burnable,
        ]
    );
    let id1 = Rgb25::iface_id(rgb25::Features { renaming: true, burnable: true });
    let id2 = Rgb25::iface_id(rgb25::Features { renaming: true, burnable: true });
    assert_eq!(id1.0, id2.0);
}
