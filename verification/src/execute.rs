//! The mutating operations: initialization, anchoring and migration.

use vstd::prelude::*;
use crate::error::{ContractError, StorageError};
use crate::handler::check_owner;
use crate::msg::{
    AnchoringMsg,
    AnchoringMsgView,
    ExecuteMsg,
    ExecuteMsgView,
    InstantiateMsg,
    MessageInfo,
    MigrateMsg,
};
use crate::response::Response;
use crate::state::{upsert_all, Config, ConfigView, Store, StoreView};
use crate::version::{check_migration, check_migration_spec, ModuleVersion, VersionView};

verus! {

/// The state after initialization by `sender`, for the code `code`: `sender`
/// owns the ledger, the pointer is `"0"`, and the records are untouched.
pub open spec fn instantiate_spec(s: StoreView, sender: Seq<char>, code: VersionView) -> StoreView {
    StoreView {
        config: Some(ConfigView { owner: sender }),
        version: Some(code),
        latest: Some("0"@),
        anchoring: s.anchoring,
    }
}

/// The outcome of an anchoring message from `sender` under the configuration
/// `config`: the owner's batch is stored and the pointer set to the message's
/// `latest`; anyone else is refused.
pub open spec fn anchoring_spec(
    s: StoreView,
    sender: Seq<char>,
    config: ConfigView,
    msg: AnchoringMsgView,
) -> Result<StoreView, ContractError> {
    if sender == config.owner {
        Ok(
            StoreView {
                latest: Some(msg.latest),
                anchoring: upsert_all(s.anchoring, msg.data),
                ..s
            },
        )
    } else {
        Err(ContractError::Unauthorized)
    }
}

/// The outcome of a mutating message from `sender`.
pub open spec fn execute_spec(s: StoreView, sender: Seq<char>, msg: ExecuteMsgView) -> Result<
    StoreView,
    ContractError,
> {
    match s.config {
        None => Err(ContractError::Storage(StorageError::MissingConfig)),
        Some(config) => match msg {
            ExecuteMsgView::Anchoring(m) => anchoring_spec(s, sender, config, m),
        },
    }
}

/// The outcome of a migration to the code `code`.
pub open spec fn migrate_spec(s: StoreView, code: VersionView) -> Result<StoreView, ContractError> {
    match s.version {
        None => Err(ContractError::Storage(StorageError::MissingVersion)),
        Some(current) => match check_migration_spec(current, code) {
            Err(e) => Err(ContractError::Migration(e)),
            Ok(_) => Ok(StoreView { version: Some(code), ..s }),
        },
    }
}

/// The attributes of the response to an initialization by `sender`.
pub open spec fn instantiate_attributes(sender: Seq<char>) -> Seq<(Seq<char>, Seq<char>)> {
    seq![("method"@, "instantiate"@), ("contract_owner"@, sender)]
}

/// The attributes of the response to an anchoring message.
pub open spec fn anchoring_attributes() -> Seq<(Seq<char>, Seq<char>)> {
    seq![("method"@, "anchoring"@)]
}

/// Initializes the ledger for the code `code`: the sender becomes the owner
/// and the latest-height pointer starts at `"0"`. Whether the ledger was
/// initialized before is not looked at.
pub fn instantiate(
    store: &mut Store,
    code: &ModuleVersion,
    info: MessageInfo,
    _msg: InstantiateMsg,
) -> (r: Result<Response, ContractError>)
    ensures
        r is Ok,
        r->Ok_0@ == instantiate_attributes(info.sender@),
        final(store)@ == instantiate_spec(old(store)@, info.sender@, code@),
{
    let owner = info.sender.clone();
    store.version = Some(ModuleVersion { name: code.name.clone(), version: code.version.clone() });
    store.config = Some(Config { owner: info.sender });
    store.latest = Some("0".to_owned());
    let response = Response::new().add_attribute(
        "method".to_owned(),
        "instantiate".to_owned(),
    ).add_attribute("contract_owner".to_owned(), owner);
    assert(response@ =~= instantiate_attributes(info.sender@));
    Ok(response)
}

/// Carries out a mutating message. Fails, and changes nothing, where no
/// configuration is stored or the sender is not the owner.
pub fn execute(store: &mut Store, info: MessageInfo, msg: ExecuteMsg) -> (r: Result<
    Response,
    ContractError,
>)
    ensures
        match execute_spec(old(store)@, info.sender@, msg@) {
            Ok(next) => r is Ok && r->Ok_0@ == anchoring_attributes() && final(store)@ == next,
            Err(e) => r is Err && r->Err_0 == e && final(store)@ == old(store)@,
        },
{
    let config = match &store.config {
        Some(c) => Config { owner: c.owner.clone() },
        None => {
            return Err(ContractError::Storage(StorageError::MissingConfig));
        },
    };
    match msg {
        ExecuteMsg::Anchoring(msg) => anchoring(store, info, config, msg),
    }
}

/// Stores the batch of `msg` and sets the latest-height pointer, if the
/// sender is the owner that `config` names. Otherwise fails with
/// `Unauthorized` and changes nothing.
pub fn anchoring(store: &mut Store, info: MessageInfo, config: Config, msg: AnchoringMsg) -> (r:
    Result<Response, ContractError>)
    ensures
        match anchoring_spec(old(store)@, info.sender@, config@, msg@) {
            Ok(next) => r is Ok && r->Ok_0@ == anchoring_attributes() && final(store)@ == next,
            Err(e) => r is Err && r->Err_0 == e && final(store)@ == old(store)@,
        },
{
    match check_owner(&info, &config) {
        Ok(_) => {},
        Err(e) => {
            return Err(e);
        },
    }
    store.apply_batch(&msg.data, msg.latest);
    let response = Response::new().add_attribute("method".to_owned(), "anchoring".to_owned());
    assert(response@ =~= anchoring_attributes());
    Ok(response)
}

/// Lets the code `code` take over the stored state: its name must be the
/// stored one and its version strictly greater. On success the stored version
/// becomes `code`; otherwise nothing changes.
pub fn migrate(store: &mut Store, code: &ModuleVersion, _msg: MigrateMsg) -> (r: Result<
    Response,
    ContractError,
>)
    ensures
        match migrate_spec(old(store)@, code@) {
            Ok(next) => r is Ok && r->Ok_0@ == Seq::<(Seq<char>, Seq<char>)>::empty()
                && final(store)@ == next,
            Err(e) => r is Err && r->Err_0 == e && final(store)@ == old(store)@,
        },
{
    let checked = match &store.version {
        Some(current) => check_migration(current, code),
        None => {
            return Err(ContractError::Storage(StorageError::MissingVersion));
        },
    };
    match checked {
        Ok(_) => {},
        Err(e) => {
            return Err(ContractError::Migration(e));
        },
    }
    store.version = Some(ModuleVersion { name: code.name.clone(), version: code.version.clone() });
    Ok(Response::new())
}

} // verus!
