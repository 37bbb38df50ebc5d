use xpla_anchor_contract::error::{ContractError, MigrationError, StorageError};
use xpla_anchor_contract::execute::{anchoring, execute, instantiate, migrate};
use xpla_anchor_contract::handler::check_owner;
use xpla_anchor_contract::msg::{
    AnchoringMsg, BlockDataResponse, Data, ExecuteMsg, InstantiateMsg, LatestBlockResponse,
    MessageInfo, MigrateMsg, QueryMsg,
};
use xpla_anchor_contract::query::{block_data, latest_block, query, QueryResponse};
use xpla_anchor_contract::response::{Attribute, Response};
use xpla_anchor_contract::state::{Anchors, BlockData, Config, Store};
use xpla_anchor_contract::version::ModuleVersion;

fn code(version: &str) -> ModuleVersion {
    ModuleVersion { name: "anchor".to_string(), version: version.to_string() }
}

fn from(sender: &str) -> MessageInfo {
    MessageInfo { sender: sender.to_string() }
}

fn record(height: &str, block_hash: &str, data_merkle: &str, timestamp: &str) -> Data {
    Data {
        height: height.to_string(),
        block_hash: block_hash.to_string(),
        data_merkle: data_merkle.to_string(),
        timestamp: timestamp.to_string(),
    }
}

fn batch(data: Vec<Data>, latest: &str) -> ExecuteMsg {
    ExecuteMsg::Anchoring(AnchoringMsg { data, latest: latest.to_string() })
}

fn attribute(key: &str, value: &str) -> Attribute {
    Attribute { key: key.to_string(), value: value.to_string() }
}

fn initialized(owner: &str) -> Store {
    let mut store = Store::new();
    instantiate(&mut store, &code("1.0.0"), from(owner), InstantiateMsg {}).unwrap();
    store
}

/// Everything a store holds, with the records in the order of their heights.
fn snapshot(store: &Store) -> (Option<Config>, Option<ModuleVersion>, Option<String>, Vec<Data>) {
    let mut records = store.anchoring.records();
    records.sort_by(|a, b| a.height.cmp(&b.height));
    (store.config.clone(), store.version.clone(), store.latest.clone(), records)
}

#[test]
fn new_store_holds_nothing() {
    let store = Store::new();
    assert_eq!(store.config, None);
    assert_eq!(store.version, None);
    assert_eq!(store.latest, None);
    assert!(store.anchoring.records().is_empty());
}

#[test]
fn instantiate_sets_owner_version_and_pointer() {
    let mut store = Store::new();
    let response = instantiate(&mut store, &code("1.0.0"), from("owner1"), InstantiateMsg {});
    assert_eq!(
        response,
        Ok(Response {
            attributes: vec![
                attribute("method", "instantiate"),
                attribute("contract_owner", "owner1"),
            ],
        })
    );
    assert_eq!(store.config, Some(Config { owner: "owner1".to_string() }));
    assert_eq!(store.version, Some(code("1.0.0")));
    assert_eq!(store.latest, Some("0".to_string()));
    assert!(store.anchoring.records().is_empty());
}

#[test]
fn instantiate_again_replaces_the_owner_and_keeps_the_records() {
    let mut store = initialized("owner1");
    execute(&mut store, from("owner1"), batch(vec![record("7", "h", "m", "t")], "7")).unwrap();
    instantiate(&mut store, &code("2.0.0"), from("owner2"), InstantiateMsg {}).unwrap();
    assert_eq!(store.config, Some(Config { owner: "owner2".to_string() }));
    assert_eq!(store.version, Some(code("2.0.0")));
    assert_eq!(store.latest, Some("0".to_string()));
    assert_eq!(store.anchoring.records(), vec![record("7", "h", "m", "t")]);
}

#[test]
fn scenario_anchor_then_query() {
    let mut store = initialized("owner1");
    assert_eq!(store.config, Some(Config { owner: "owner1".to_string() }));
    assert_eq!(store.latest, Some("0".to_string()));

    let response = execute(
        &mut store,
        from("owner1"),
        batch(vec![record("100", "0xabc", "0xdef", "1700000000")], "100"),
    );
    assert_eq!(response, Ok(Response { attributes: vec![attribute("method", "anchoring")] }));

    assert_eq!(
        query(&store, QueryMsg::BlockData { height: "100".to_string() }),
        Ok(QueryResponse::BlockData(BlockDataResponse {
            height: "100".to_string(),
            block_hash: "0xabc".to_string(),
            data_merkle: "0xdef".to_string(),
            timestamp: "1700000000".to_string(),
        }))
    );
    assert_eq!(
        query(&store, QueryMsg::LatestBlock {}),
        Ok(QueryResponse::LatestBlock(LatestBlockResponse { latest_height: "100".to_string() }))
    );

    let before = snapshot(&store);
    let refused = execute(
        &mut store,
        from("attacker"),
        batch(vec![record("100", "0xbad", "0xbad", "1")], "999"),
    );
    assert_eq!(refused, Err(ContractError::Unauthorized));
    assert_eq!(snapshot(&store), before);

    assert_eq!(
        query(&store, QueryMsg::BlockData { height: "999".to_string() }),
        Err(ContractError::NotFound)
    );
}

#[test]
fn stranger_is_refused_and_changes_nothing() {
    let mut store = initialized("owner1");
    execute(&mut store, from("owner1"), batch(vec![record("1", "a", "b", "c")], "1")).unwrap();
    let before = snapshot(&store);
    for sender in ["", "owner", "owner11", "Owner1", "owner2"] {
        let refused = execute(
            &mut store,
            from(sender),
            batch(vec![record("1", "x", "y", "z"), record("2", "x", "y", "z")], "2"),
        );
        assert_eq!(refused, Err(ContractError::Unauthorized));
        assert_eq!(snapshot(&store), before);
    }
    let refused = execute(&mut store, from("mallory"), batch(vec![], "9"));
    assert_eq!(refused, Err(ContractError::Unauthorized));
    assert_eq!(snapshot(&store), before);
}

#[test]
fn anchoring_goes_by_the_configuration_it_is_given() {
    let mut store = initialized("owner1");
    let config = Config { owner: "deputy".to_string() };
    let msg = AnchoringMsg { data: vec![record("5", "a", "b", "c")], latest: "5".to_string() };
    assert_eq!(
        anchoring(&mut store, from("owner1"), config.clone(), msg.clone()),
        Err(ContractError::Unauthorized)
    );
    assert!(store.anchoring.records().is_empty());
    assert_eq!(
        anchoring(&mut store, from("deputy"), config, msg),
        Ok(Response { attributes: vec![attribute("method", "anchoring")] })
    );
    assert_eq!(store.anchoring.records(), vec![record("5", "a", "b", "c")]);
    assert_eq!(store.latest, Some("5".to_string()));
}

#[test]
fn execute_before_initialization_reports_missing_config() {
    let mut store = Store::new();
    let r = execute(&mut store, from("owner1"), batch(vec![record("1", "a", "b", "c")], "1"));
    assert_eq!(r, Err(ContractError::Storage(StorageError::MissingConfig)));
    assert_eq!(snapshot(&store), snapshot(&Store::new()));
}

#[test]
fn every_record_of_a_batch_is_served() {
    let mut store = initialized("owner1");
    let records = vec![
        record("100", "h100", "m100", "t100"),
        record("101", "h101", "m101", "t101"),
        record("9", "h9", "m9", "t9"),
        record("", "h-empty", "m-empty", "t-empty"),
    ];
    execute(&mut store, from("owner1"), batch(records.clone(), "101")).unwrap();
    for r in &records {
        assert_eq!(
            block_data(&store, r.height.clone()),
            Ok(BlockDataResponse {
                height: r.height.clone(),
                block_hash: r.block_hash.clone(),
                data_merkle: r.data_merkle.clone(),
                timestamp: r.timestamp.clone(),
            })
        );
    }
    assert_eq!(
        latest_block(&store),
        Ok(LatestBlockResponse { latest_height: "101".to_string() })
    );
    assert_eq!(store.anchoring.records().len(), 4);
}

#[test]
fn later_record_of_a_height_replaces_the_earlier_one() {
    let mut store = initialized("owner1");
    execute(
        &mut store,
        from("owner1"),
        batch(vec![record("5", "old", "old", "1"), record("6", "six", "six", "2")], "6"),
    )
    .unwrap();
    execute(
        &mut store,
        from("owner1"),
        batch(vec![record("5", "mid", "mid", "3"), record("5", "new", "new", "4")], "5"),
    )
    .unwrap();
    assert_eq!(
        block_data(&store, "5".to_string()),
        Ok(BlockDataResponse {
            height: "5".to_string(),
            block_hash: "new".to_string(),
            data_merkle: "new".to_string(),
            timestamp: "4".to_string(),
        })
    );
    assert_eq!(
        block_data(&store, "6".to_string()).map(|r| r.block_hash),
        Ok("six".to_string())
    );
    assert_eq!(store.anchoring.records().len(), 2);
}

#[test]
fn pointer_is_not_held_against_the_batch() {
    let mut store = initialized("owner1");
    execute(&mut store, from("owner1"), batch(vec![record("50", "a", "b", "c")], "900")).unwrap();
    assert_eq!(store.latest, Some("900".to_string()));
    assert_eq!(block_data(&store, "900".to_string()), Err(ContractError::NotFound));
    execute(&mut store, from("owner1"), batch(vec![], "3")).unwrap();
    assert_eq!(store.latest, Some("3".to_string()));
    assert_eq!(store.anchoring.records(), vec![record("50", "a", "b", "c")]);
}

#[test]
fn same_batch_twice_is_the_same_as_once() {
    let records = vec![
        record("1", "a", "b", "c"),
        record("2", "d", "e", "f"),
        record("1", "g", "h", "i"),
    ];
    let mut once = initialized("owner1");
    execute(&mut once, from("owner1"), batch(records.clone(), "2")).unwrap();
    let mut twice = initialized("owner1");
    execute(&mut twice, from("owner1"), batch(records.clone(), "2")).unwrap();
    execute(&mut twice, from("owner1"), batch(records, "2")).unwrap();
    assert_eq!(snapshot(&twice), snapshot(&once));
}

#[test]
fn height_never_submitted_is_not_found() {
    let mut store = initialized("owner1");
    assert_eq!(block_data(&store, "1".to_string()), Err(ContractError::NotFound));
    execute(&mut store, from("owner1"), batch(vec![record("100", "a", "b", "c")], "100")).unwrap();
    for height in ["", "10", "1000", "0100", "100 ", "999"] {
        assert_eq!(block_data(&store, height.to_string()), Err(ContractError::NotFound));
        assert_eq!(
            query(&store, QueryMsg::BlockData { height: height.to_string() }),
            Err(ContractError::NotFound)
        );
    }
}

#[test]
fn latest_block_before_initialization_reports_missing_pointer() {
    let store = Store::new();
    assert_eq!(latest_block(&store), Err(ContractError::Storage(StorageError::MissingLatest)));
    assert_eq!(
        query(&store, QueryMsg::LatestBlock {}),
        Err(ContractError::Storage(StorageError::MissingLatest))
    );
}

#[test]
fn migrate_to_a_newer_version_replaces_the_version_only() {
    let mut store = initialized("owner1");
    execute(&mut store, from("owner1"), batch(vec![record("1", "a", "b", "c")], "1")).unwrap();
    let before = snapshot(&store);
    assert_eq!(
        migrate(&mut store, &code("1.0.1"), MigrateMsg {}),
        Ok(Response { attributes: vec![] })
    );
    let after = snapshot(&store);
    assert_eq!(after.1, Some(code("1.0.1")));
    assert_eq!((after.0, after.2, after.3), (before.0, before.2, before.3));
}

#[test]
fn migrate_from_another_module_is_refused() {
    let mut store = initialized("owner1");
    let before = snapshot(&store);
    let other = ModuleVersion { name: "ledger".to_string(), version: "9.9.9".to_string() };
    assert_eq!(
        migrate(&mut store, &other, MigrateMsg {}),
        Err(ContractError::Migration(MigrationError::WrongModule))
    );
    assert_eq!(snapshot(&store), before);
}

#[test]
fn migrate_to_the_same_or_an_older_version_is_refused() {
    let mut store = initialized("owner1");
    let before = snapshot(&store);
    for version in ["1.0.0", "0.9.9", "1.0", "", "1.0.0-rc1".get(..5).unwrap()] {
        assert_eq!(
            migrate(&mut store, &code(version), MigrateMsg {}),
            Err(ContractError::Migration(MigrationError::NotNewer))
        );
        assert_eq!(snapshot(&store), before);
    }
}

#[test]
fn versions_are_compared_as_text() {
    let mut store = Store::new();
    instantiate(&mut store, &code("9"), from("owner1"), InstantiateMsg {}).unwrap();
    assert_eq!(
        migrate(&mut store, &code("10"), MigrateMsg {}),
        Err(ContractError::Migration(MigrationError::NotNewer))
    );
    assert_eq!(store.version, Some(code("9")));

    let mut store = Store::new();
    instantiate(&mut store, &code("10"), from("owner1"), InstantiateMsg {}).unwrap();
    assert!(migrate(&mut store, &code("9"), MigrateMsg {}).is_ok());
    assert_eq!(store.version, Some(code("9")));
}

#[test]
fn migrate_without_a_stored_version_reports_it_missing() {
    let mut store = Store::new();
    assert_eq!(
        migrate(&mut store, &code("1.0.0"), MigrateMsg {}),
        Err(ContractError::Storage(StorageError::MissingVersion))
    );
    assert_eq!(store.version, None);
}

#[test]
fn wrong_module_is_reported_before_the_version_is_looked_at() {
    let mut store = initialized("owner1");
    let other = ModuleVersion { name: "other".to_string(), version: "0.0.1".to_string() };
    assert_eq!(
        migrate(&mut store, &other, MigrateMsg {}),
        Err(ContractError::Migration(MigrationError::WrongModule))
    );
}

#[test]
fn check_owner_gives_the_owner_or_refuses() {
    let config = Config { owner: "owner1".to_string() };
    assert_eq!(check_owner(&from("owner1"), &config), Ok("owner1".to_string()));
    assert_eq!(check_owner(&from("owner2"), &config), Err(ContractError::Unauthorized));
    assert_eq!(check_owner(&from(""), &config), Err(ContractError::Unauthorized));
    let nobody = Config { owner: String::new() };
    assert_eq!(check_owner(&from(""), &nobody), Ok(String::new()));
}

#[test]
fn update_hands_the_configuration_back() {
    let mut config = Config { owner: "owner1".to_string() };
    assert_eq!(config.update().owner, "owner1");
    config.update().owner = "owner2".to_string();
    assert_eq!(config, Config { owner: "owner2".to_string() });
}

#[test]
fn anchors_save_inserts_or_replaces() {
    let mut anchors = Anchors::new();
    let first = BlockData {
        block_hash: "a".to_string(),
        data_merkle: "b".to_string(),
        timestamp: "c".to_string(),
    };
    let second = BlockData {
        block_hash: "d".to_string(),
        data_merkle: "e".to_string(),
        timestamp: "f".to_string(),
    };
    assert_eq!(anchors.may_load(&"1".to_string()), None);
    anchors.save("1".to_string(), first.clone());
    anchors.save("2".to_string(), first.clone());
    assert_eq!(anchors.may_load(&"1".to_string()), Some(first.clone()));
    anchors.save("1".to_string(), second.clone());
    assert_eq!(anchors.may_load(&"1".to_string()), Some(second));
    assert_eq!(anchors.may_load(&"2".to_string()), Some(first));
    assert_eq!(anchors.may_load(&"3".to_string()), None);
    assert_eq!(
        anchors.records(),
        vec![record("1", "d", "e", "f"), record("2", "a", "b", "c")]
    );
}

#[test]
fn anchors_save_all_keeps_the_last_of_each_height() {
    let mut anchors = Anchors::new();
    anchors.save_all(&vec![
        record("1", "a", "a", "a"),
        record("2", "b", "b", "b"),
        record("1", "c", "c", "c"),
    ]);
    assert_eq!(
        anchors.records(),
        vec![record("1", "c", "c", "c"), record("2", "b", "b", "b")]
    );
    anchors.save_all(&vec![]);
    assert_eq!(anchors.records().len(), 2);
}

#[test]
fn apply_batch_stores_the_records_and_sets_the_pointer() {
    let mut store = Store::new();
    store.apply_batch(&vec![record("8", "h", "m", "t")], "8".to_string());
    assert_eq!(store.latest, Some("8".to_string()));
    assert_eq!(store.config, None);
    assert_eq!(store.version, None);
    assert_eq!(store.anchoring.records(), vec![record("8", "h", "m", "t")]);
}

#[test]
fn response_collects_attributes_in_order() {
    assert_eq!(Response::new(), Response { attributes: vec![] });
    let r = Response::new()
        .add_attribute("method".to_string(), "anchoring".to_string())
        .add_attribute("k".to_string(), "v".to_string());
    assert_eq!(r.attributes, vec![attribute("method", "anchoring"), attribute("k", "v")]);
}
