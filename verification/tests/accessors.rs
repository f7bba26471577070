use rgb_ifaces::amount::{Amount, SupplyError};
use rgb_ifaces::iface::IfaceId;
use rgb_ifaces::rgb20::{IfaceError, Rgb20};
use rgb_ifaces::rgb25;
use rgb_ifaces::rgb25::Rgb25;
use rgb_ifaces::state::{
    AmountChange, AssetSpec, Attachment, BoundContract, ContractState, ContractTerms,
    FungibleAllocation, FungibleOpRecord, FungibleSlot, GlobalSlot, GlobalValue, OpsSlot, Outpoint,
    OutpointFilter, RightsAllocation, RightsSlot, WitnessFilter,
};

fn amounts_slot(name: &str, values: &[u64]) -> GlobalSlot {
    GlobalSlot {
        name: name.to_string(),
        values: values.iter().map(|v| GlobalValue::Amount(Amount(*v))).collect(),
    }
}

fn bound(state: ContractState) -> BoundContract {
    BoundContract { iface_id: IfaceId([0u8; 32]), transitions: vec![], state }
}

fn state_with_globals(globals: Vec<GlobalSlot>) -> ContractState {
    ContractState { globals, fungible: vec![], rights: vec![], ops: vec![] }
}

fn outpoint(txid: u64, vout: u32) -> Outpoint {
    Outpoint { txid, vout }
}

#[test]
fn supply_arithmetic() {
    let contract = Rgb20(bound(state_with_globals(vec![
        amounts_slot("issuedSupply", &[1_000_000]),
        amounts_slot("burnedSupply", &[250_000]),
    ])));
    assert_eq!(contract.total_issued_supply(), Amount(1_000_000));
    assert_eq!(contract.total_burned_supply(), Amount(250_000));
    assert_eq!(contract.total_supply(), Ok(Amount(750_000)));
}

#[test]
fn supply_underflow_signals_failure() {
    let contract = Rgb20(bound(state_with_globals(vec![
        amounts_slot("issuedSupply", &[100]),
        amounts_slot("burnedSupply", &[101]),
    ])));
    assert_eq!(contract.total_supply(), Err(SupplyError::Underflow));
}

#[test]
fn absent_burned_supply_slot_defaults_to_zero() {
    let contract = Rgb20(bound(state_with_globals(vec![amounts_slot(
        "issuedSupply",
        &[5_000],
    )])));
    assert_eq!(contract.total_burned_supply(), Amount(0));
    assert_eq!(contract.total_replaced_supply(), Amount(0));
    assert_eq!(contract.total_supply(), Ok(Amount(5_000)));
}

#[test]
fn supplies_sum_over_every_slot_value() {
    let contract = Rgb20(bound(state_with_globals(vec![
        amounts_slot("issuedSupply", &[100, 200, 300]),
        amounts_slot("burnedSupply", &[10, 20]),
        amounts_slot("replacedSupply", &[7]),
    ])));
    assert_eq!(contract.total_issued_supply(), Amount(600));
    assert_eq!(contract.total_burned_supply(), Amount(30));
    assert_eq!(contract.total_replaced_supply(), Amount(7));
}

fn three_allocations() -> ContractState {
    let allocations = vec![
        FungibleAllocation { seal: outpoint(1, 0), state: Amount(100), witness: Some(11) },
        FungibleAllocation { seal: outpoint(2, 0), state: Amount(250), witness: Some(12) },
        FungibleAllocation { seal: outpoint(3, 0), state: Amount(650), witness: None },
    ];
    ContractState {
        globals: vec![],
        fungible: vec![FungibleSlot { name: "assetOwner".to_string(), allocations }],
        rights: vec![],
        ops: vec![],
    }
}

#[test]
fn balance_sums_exactly_the_matched_allocations() {
    let contract = Rgb20(bound(three_allocations()));
    let filter = OutpointFilter::Include(vec![outpoint(1, 0), outpoint(3, 0)]);
    assert_eq!(contract.balance(&filter), Amount(750));
    assert_eq!(contract.balance(&OutpointFilter::IncludeAll), Amount(1000));
    assert_eq!(contract.balance(&OutpointFilter::Include(vec![])), Amount(0));
}

#[test]
fn allocations_keep_store_order_and_filter() {
    let contract = Rgb20(bound(three_allocations()));
    let filter = OutpointFilter::Include(vec![outpoint(3, 0), outpoint(1, 0)]);
    let got = contract.allocations(&filter);
    assert_eq!(got.len(), 2);
    assert_eq!(got[0].seal, outpoint(1, 0));
    assert_eq!(got[0].state, Amount(100));
    assert_eq!(got[1].seal, outpoint(3, 0));
    assert_eq!(got[1].state, Amount(650));
}

#[test]
fn rights_allocations_filter() {
    let state = ContractState {
        globals: vec![],
        fungible: vec![],
        rights: vec![
            RightsSlot {
                name: "updateRight".to_string(),
                allocations: vec![
                    RightsAllocation { seal: outpoint(7, 1), witness: None },
                    RightsAllocation { seal: outpoint(8, 1), witness: Some(21) },
                ],
            },
            RightsSlot { name: "burnEpoch".to_string(), allocations: vec![] },
            RightsSlot {
                name: "burnRight".to_string(),
                allocations: vec![RightsAllocation { seal: outpoint(9, 0), witness: None }],
            },
        ],
        ops: vec![],
    };
    let contract = Rgb20(bound(state));
    let only_eight = OutpointFilter::Include(vec![outpoint(8, 1)]);
    let got = contract.update_right(&only_eight);
    assert_eq!(got.len(), 1);
    assert_eq!(got[0].seal, outpoint(8, 1));
    assert_eq!(contract.burn_epoch(&OutpointFilter::IncludeAll).len(), 0);
    assert_eq!(contract.burn_right(&OutpointFilter::IncludeAll).len(), 1);
}

#[test]
fn asset_spec_and_terms_extraction() {
    let spec_value = GlobalValue::Asset(AssetSpec {
        ticker: "TEST".to_string(),
        name: "Test asset".to_string(),
        details: Some("an example".to_string()),
        precision: 8,
    });
    let terms_value = GlobalValue::Terms(ContractTerms {
        text: "no terms".to_string(),
        media: Some(Attachment { media_type: "text/plain".to_string(), digest: [9u8; 32] }),
    });
    let contract = Rgb20(bound(state_with_globals(vec![
        GlobalSlot { name: "spec".to_string(), values: vec![spec_value] },
        GlobalSlot { name: "terms".to_string(), values: vec![terms_value] },
    ])));
    let spec = contract.spec();
    assert_eq!(spec.ticker, "TEST");
    assert_eq!(spec.name, "Test asset");
    assert_eq!(spec.details, Some("an example".to_string()));
    assert_eq!(spec.precision, 8);
    let terms = contract.contract_terms();
    assert_eq!(terms.text, "no terms");
    assert_eq!(terms.media.unwrap().media_type, "text/plain");
}

fn history_state(records: Vec<FungibleOpRecord>) -> ContractState {
    ContractState {
        globals: vec![],
        fungible: vec![],
        rights: vec![],
        ops: vec![OpsSlot { name: "assetOwner".to_string(), records }],
    }
}

#[test]
fn transfer_history_keys_by_witness_last_wins() {
    let records = vec![
        FungibleOpRecord {
            witness: 42,
            seal: outpoint(1, 0),
            state_change: AmountChange::Inc(Amount(10)),
        },
        FungibleOpRecord {
            witness: 7,
            seal: outpoint(2, 0),
            state_change: AmountChange::Dec(Amount(5)),
        },
        FungibleOpRecord {
            witness: 42,
            seal: outpoint(3, 0),
            state_change: AmountChange::Zero,
        },
    ];
    let contract = Rgb20(bound(history_state(records)));
    let history =
        contract.transfer_history(&WitnessFilter::IncludeAll, &OutpointFilter::IncludeAll);
    assert_eq!(history.len(), 2);
    assert_eq!(history.get(&42), Some(&AmountChange::Zero));
    assert_eq!(history.get(&7), Some(&AmountChange::Dec(Amount(5))));
}

#[test]
fn transfer_history_respects_both_filters() {
    let records = vec![
        FungibleOpRecord {
            witness: 1,
            seal: outpoint(1, 0),
            state_change: AmountChange::Inc(Amount(1)),
        },
        FungibleOpRecord {
            witness: 2,
            seal: outpoint(2, 0),
            state_change: AmountChange::Inc(Amount(2)),
        },
        FungibleOpRecord {
            witness: 3,
            seal: outpoint(3, 0),
            state_change: AmountChange::Inc(Amount(3)),
        },
    ];
    let contract = Rgb20(bound(history_state(records)));
    let history = contract.transfer_history(
        &WitnessFilter::Include(vec![1, 3]),
        &OutpointFilter::Include(vec![outpoint(1, 0), outpoint(2, 0)]),
    );
    assert_eq!(history.len(), 1);
    assert_eq!(history.get(&1), Some(&AmountChange::Inc(Amount(1))));
}

#[test]
fn rgb20_info_summary() {
    let spec_value = GlobalValue::Asset(AssetSpec {
        ticker: "SUM".to_string(),
        name: "Summary".to_string(),
        details: None,
        precision: 2,
    });
    let terms_value =
        GlobalValue::Terms(ContractTerms { text: "terms text".to_string(), media: None });
    let state = state_with_globals(vec![
        GlobalSlot { name: "spec".to_string(), values: vec![spec_value] },
        GlobalSlot { name: "terms".to_string(), values: vec![terms_value] },
        amounts_slot("issuedSupply", &[1000]),
        amounts_slot("burnedSupply", &[100]),
    ]);
    let contract = Rgb20(BoundContract {
        iface_id: IfaceId([0u8; 32]),
        transitions: vec!["transfer".to_string(), "issue".to_string(), "burn".to_string()],
        state,
    });
    let info = contract.info();
    assert_eq!(info.ticker, "SUM");
    assert_eq!(info.name, "Summary");
    assert_eq!(info.details, None);
    assert_eq!(info.precision, 2);
    assert_eq!(info.terms, "terms text");
    assert!(info.attach.is_none());
    assert_eq!(
        info.features,
        rgb_ifaces::rgb20::Features {
            renaming: false,
            inflation: rgb_ifaces::rgb20::Inflation::InflatableBurnable,
        }
    );
    assert_eq!(info.issued, Amount(1000));
    assert_eq!(info.burned, Amount(100));
    assert_eq!(info.replaced, Amount(0));
}

#[test]
fn amount_checked_arithmetic() {
    assert_eq!(Amount(2).checked_add(Amount(3)), Some(Amount(5)));
    assert_eq!(Amount(u64::MAX).checked_add(Amount(1)), None);
    assert_eq!(Amount(5).checked_sub(Amount(2)), Ok(Amount(3)));
    assert_eq!(Amount(2).checked_sub(Amount(5)), Err(SupplyError::Underflow));
}

#[test]
fn rgb25_bind_checks_interface_id() {
    let base_id = Rgb25::iface_id(rgb25::Features { renaming: false, burnable: false });
    let full_id = Rgb25::iface_id(rgb25::Features { renaming: true, burnable: true });
    let ok_base = Rgb25::from(BoundContract {
        iface_id: base_id,
        transitions: vec![],
        state: state_with_globals(vec![]),
    });
    assert!(ok_base.is_ok());
    let ok_full = Rgb25::from(BoundContract {
        iface_id: full_id,
        transitions: vec![],
        state: state_with_globals(vec![]),
    });
    assert!(ok_full.is_ok());
    let rejected = Rgb25::from(BoundContract {
        iface_id: IfaceId([1u8; 32]),
        transitions: vec![],
        state: state_with_globals(vec![]),
    });
    assert_eq!(rejected.unwrap_err(), IfaceError::IfaceMismatch);
}

#[test]
fn rgb25_getters() {
    let state = state_with_globals(vec![
        GlobalSlot {
            name: "name".to_string(),
            values: vec![GlobalValue::Name("Collectible".to_string())],
        },
        GlobalSlot { name: "details".to_string(), values: vec![] },
        GlobalSlot { name: "precision".to_string(), values: vec![GlobalValue::Precision(0)] },
        amounts_slot("issuedSupply", &[21]),
        GlobalSlot {
            name: "terms".to_string(),
            values: vec![GlobalValue::Terms(ContractTerms {
                text: "collectible terms".to_string(),
                media: None,
            })],
        },
    ]);
    let contract = Rgb25(bound(state));
    assert_eq!(contract.name(), "Collectible");
    assert_eq!(contract.details(), None);
    assert_eq!(contract.precision(), 0);
    assert_eq!(contract.total_issued_supply(), Amount(21));
    assert_eq!(contract.total_burned_supply(), Amount(0));
    assert_eq!(contract.contract_terms().text, "collectible terms");
}

#[test]
fn rgb25_details_present() {
    let state = state_with_globals(vec![GlobalSlot {
        name: "details".to_string(),
        values: vec![GlobalValue::Details("fine print".to_string())],
    }]);
    let contract = Rgb25(bound(state));
    assert_eq!(contract.details(), Some("fine print".to_string()));
}
