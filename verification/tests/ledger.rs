use legends_registration::contract::execute;
use legends_registration::contract::instantiate;
use legends_registration::contract::list_registrations;
use legends_registration::contract::migrate;
use legends_registration::contract::query_registration;
use legends_registration::contract::record;
use legends_registration::error::ContractError;
use legends_registration::msg::Coin;
use legends_registration::msg::ExecuteMsg;
use legends_registration::msg::InstantiateMsg;
use legends_registration::msg::MessageInfo;
use legends_registration::msg::MigrateMsg;
use legends_registration::msg::RecordMsg;
use legends_registration::msg::RegistrationResponse;
use legends_registration::state::last_registration;
use legends_registration::state::next_id;
use legends_registration::state::RecordStore;
use legends_registration::state::Registration;

fn plain_info(sender: &str) -> MessageInfo {
    MessageInfo {
        sender: sender.to_string(),
        funds: vec![],
    }
}

fn initialized(owner: &str) -> RecordStore {
    let mut store = RecordStore::new();
    let msg = InstantiateMsg {
        owner: owner.to_string(),
    };
    instantiate(&mut store, &plain_info("someone"), msg).unwrap();
    store
}

fn write(store: &mut RecordStore, owner: &str, name: &str, email: &str, address: &str, time: u64) {
    let msg = ExecuteMsg::Record(RecordMsg {
        name: name.to_string(),
        email: email.to_string(),
        address: address.to_string(),
    });
    execute(store, time, &plain_info(owner), msg).unwrap();
}

#[test]
fn happy_path() {
    let mut store = RecordStore::new();
    let owner = "the-man";

    // init
    let info = plain_info("someone");
    let msg = InstantiateMsg {
        owner: owner.to_string(),
    };
    instantiate(&mut store, &info, msg).unwrap();

    // record something
    let record = RecordMsg {
        name: "My awesome registration".to_string(),
        email: "Let's all go to the beach and enjoy the sun!".to_string(),
        address: "osmo1clpqr4nrk4khgkxj78fcwwh6dl3uw4epasmvnj".to_string(),
    };
    let time1: u64 = 111_222_333;
    let msg = ExecuteMsg::Record(record.clone());
    execute(&mut store, time1, &plain_info(owner), msg).unwrap();

    // record second registration
    let record2 = RecordMsg {
        name: "One more thing".to_string(),
        email: "John will bring a twelve pack for us all".to_string(),
        address: "osmo1clpqr4nrk4khgkxj78fcwwh6dl3uw4epasmvnj".to_string(),
    };
    let time2: u64 = 111_444_555;
    let msg = ExecuteMsg::Record(record2.clone());
    execute(&mut store, time2, &plain_info(owner), msg).unwrap();

    // what do we expect?
    let expected1 = RegistrationResponse {
        id: 1,
        created: time1,
        name: record.name,
        email: record.email,
        address: record.address,
    };
    let expected2 = RegistrationResponse {
        id: 2,
        created: time2,
        name: record2.name,
        email: record2.email,
        address: record2.address,
    };

    let dec1 = query_registration(&store, 1).unwrap();
    assert_eq!(dec1, expected1);
    let dec2 = query_registration(&store, 2).unwrap();
    assert_eq!(dec2, expected2);

    let all = list_registrations(&store, None, None).unwrap();
    assert_eq!(all.registrations, vec![expected1, expected2]);
}

#[test]
fn two_records_then_queries() {
    let mut store = initialized("reg-owner");
    let t1: u64 = 111_222_333;
    let t2: u64 = 111_444_555;
    write(&mut store, "reg-owner", "Alpha", "aaaaaaaaaaaaaaaaaaaa", "addr1", t1);
    write(&mut store, "reg-owner", "Beta", "bbbbbbbbbbbbbbbbbbbb", "addr1", t2);

    let first = query_registration(&store, 1).unwrap();
    assert_eq!(first.id, 1);
    assert_eq!(first.created, t1);
    assert_eq!(first.name, "Alpha");
    assert_eq!(first.email, "aaaaaaaaaaaaaaaaaaaa");
    assert_eq!(first.address, "addr1");

    let second = query_registration(&store, 2).unwrap();
    assert_eq!(second.id, 2);
    assert_eq!(second.created, t2);
    assert_eq!(second.name, "Beta");

    let all = list_registrations(&store, None, None).unwrap();
    let ids: Vec<u64> = all.registrations.iter().map(|r| r.id).collect();
    assert_eq!(ids, vec![1, 2]);
}

#[test]
fn list_after_first_returns_second() {
    let mut store = initialized("reg-owner");
    write(&mut store, "reg-owner", "Alpha", "aaaaaaaaaaaaaaaaaaaa", "addr1", 111_222_333);
    write(&mut store, "reg-owner", "Beta", "bbbbbbbbbbbbbbbbbbbb", "addr1", 111_444_555);

    let page = list_registrations(&store, Some(1), Some(1)).unwrap();
    assert_eq!(page.registrations.len(), 1);
    assert_eq!(page.registrations[0].id, 2);
    assert_eq!(page.registrations[0].name, "Beta");
}

#[test]
fn monotonic_ids_over_many_writes() {
    let mut store = initialized("reg-owner");
    for i in 0..25u64 {
        let name = format!("Registration {}", i);
        write(&mut store, "reg-owner", &name, "somebody@example.test", "addr1", 1_000 + i);
    }
    let all = list_registrations(&store, None, Some(100)).unwrap();
    let ids: Vec<u64> = all.registrations.iter().map(|r| r.id).collect();
    let expected: Vec<u64> = (1..=25).collect();
    assert_eq!(ids, expected);
    assert_eq!(last_registration(&store).unwrap(), 25);
}

#[test]
fn records_are_immutable_under_later_writes() {
    let mut store = initialized("reg-owner");
    write(&mut store, "reg-owner", "Alpha", "aaaaaaaaaaaaaaaaaaaa", "addr1", 7);
    let before = query_registration(&store, 1).unwrap();
    write(&mut store, "reg-owner", "Beta", "bbbbbbbbbbbbbbbbbbbb", "addr2", 8);
    write(&mut store, "reg-owner", "Gamma", "cccccccccccccccccccc", "addr3", 9);
    let after = query_registration(&store, 1).unwrap();
    assert_eq!(before, after);
}

#[test]
fn pagination_never_returns_bound_or_below() {
    let mut store = initialized("reg-owner");
    for i in 0..5u64 {
        let name = format!("Registration {}", i);
        write(&mut store, "reg-owner", &name, "somebody@example.test", "addr1", i);
    }
    let page = list_registrations(&store, Some(2), Some(10)).unwrap();
    let ids: Vec<u64> = page.registrations.iter().map(|r| r.id).collect();
    assert_eq!(ids, vec![3, 4, 5]);
    for id in ids {
        assert!(id > 2);
    }
}

#[test]
fn pagination_chain_covers_everything_once() {
    let mut store = initialized("reg-owner");
    for i in 0..5u64 {
        let name = format!("Registration {}", i);
        write(&mut store, "reg-owner", &name, "somebody@example.test", "addr1", i);
    }
    let mut seen: Vec<u64> = vec![];
    let mut start_after: Option<u64> = None;
    loop {
        let page = list_registrations(&store, start_after, Some(2)).unwrap();
        for r in &page.registrations {
            seen.push(r.id);
        }
        if page.registrations.len() < 2 {
            break;
        }
        start_after = Some(page.registrations[page.registrations.len() - 1].id);
    }
    assert_eq!(seen, vec![1, 2, 3, 4, 5]);
}

#[test]
fn limit_is_clamped_and_defaulted() {
    let mut store = initialized("reg-owner");
    for i in 0..120u64 {
        let name = format!("Registration {}", i);
        write(&mut store, "reg-owner", &name, "somebody@example.test", "addr1", i);
    }
    let capped = list_registrations(&store, None, Some(1000)).unwrap();
    assert_eq!(capped.registrations.len(), 100);
    let defaulted = list_registrations(&store, None, None).unwrap();
    assert_eq!(defaulted.registrations.len(), 30);
}

#[test]
fn never_written_ids_are_not_found() {
    let empty = RecordStore::new();
    assert!(matches!(query_registration(&empty, 0), Err(ContractError::NotFound)));
    assert!(matches!(query_registration(&empty, 1), Err(ContractError::NotFound)));

    let mut store = initialized("reg-owner");
    write(&mut store, "reg-owner", "Alpha", "aaaaaaaaaaaaaaaaaaaa", "addr1", 7);
    assert!(matches!(query_registration(&store, 0), Err(ContractError::NotFound)));
    assert!(matches!(query_registration(&store, 2), Err(ContractError::NotFound)));
    assert!(matches!(query_registration(&store, u64::MAX), Err(ContractError::NotFound)));
}

#[test]
fn validate_checks_name_bounds() {
    let short = RecordMsg {
        name: "abc".to_string(),
        email: "aaaaaaaaaaaaaaaaaaaa".to_string(),
        address: "addr1".to_string(),
    };
    assert!(matches!(
        short.validate(),
        Err(ContractError::InvalidLength("Title", 4, 128))
    ));
    let long = RecordMsg {
        name: "x".repeat(129),
        email: "aaaaaaaaaaaaaaaaaaaa".to_string(),
        address: "addr1".to_string(),
    };
    assert!(matches!(
        long.validate(),
        Err(ContractError::InvalidLength("Title", 4, 128))
    ));
}

#[test]
fn validate_checks_email_bounds() {
    let short = RecordMsg {
        name: "Alpha".to_string(),
        email: "nineteen.characters".to_string(),
        address: "addr1".to_string(),
    };
    assert_eq!(short.email.len(), 19);
    assert!(matches!(
        short.validate(),
        Err(ContractError::InvalidLength("Body", 20, 9192))
    ));
    let fine = RecordMsg {
        name: "Alpha".to_string(),
        email: "aaaaaaaaaaaaaaaaaaaa".to_string(),
        address: "addr1".to_string(),
    };
    assert!(fine.validate().is_ok());
}

#[test]
fn invalid_fields_are_refused_by_the_write_path() {
    let mut store = initialized("reg-owner");
    let msg = ExecuteMsg::Record(RecordMsg {
        name: "abc".to_string(),
        email: "aaaaaaaaaaaaaaaaaaaa".to_string(),
        address: "addr1".to_string(),
    });
    let err = execute(&mut store, 7, &plain_info("reg-owner"), msg).unwrap_err();
    assert!(matches!(err, ContractError::InvalidLength("Title", 4, 128)));
    assert!(matches!(query_registration(&store, 1), Err(ContractError::NotFound)));
}

#[test]
fn value_transfers_are_refused() {
    let mut store = initialized("reg-owner");
    let funds = vec![Coin {
        denom: "uosmo".to_string(),
        amount: 5,
    }];
    let info = MessageInfo {
        sender: "reg-owner".to_string(),
        funds,
    };
    let msg = ExecuteMsg::Record(RecordMsg {
        name: "Alpha".to_string(),
        email: "aaaaaaaaaaaaaaaaaaaa".to_string(),
        address: "addr1".to_string(),
    });
    let err = execute(&mut store, 7, &info, msg).unwrap_err();
    assert!(matches!(err, ContractError::PaymentNotAllowed));

    let mut fresh = RecordStore::new();
    let info = MessageInfo {
        sender: "someone".to_string(),
        funds: vec![Coin {
            denom: "uosmo".to_string(),
            amount: 1,
        }],
    };
    let err = instantiate(
        &mut fresh,
        &info,
        InstantiateMsg {
            owner: "reg-owner".to_string(),
        },
    )
    .unwrap_err();
    assert!(matches!(err, ContractError::PaymentNotAllowed));
}

#[test]
fn only_the_owner_may_write() {
    let mut store = initialized("reg-owner");
    let msg = ExecuteMsg::Record(RecordMsg {
        name: "Alpha".to_string(),
        email: "aaaaaaaaaaaaaaaaaaaa".to_string(),
        address: "addr1".to_string(),
    });
    let err = execute(&mut store, 7, &plain_info("someone-else"), msg).unwrap_err();
    assert!(matches!(err, ContractError::Unauthorized));

    let mut uninitialized = RecordStore::new();
    let msg = RecordMsg {
        name: "Alpha".to_string(),
        email: "aaaaaaaaaaaaaaaaaaaa".to_string(),
        address: "addr1".to_string(),
    };
    let err = record(&mut uninitialized, 7, &plain_info("anyone"), msg).unwrap_err();
    assert!(matches!(err, ContractError::Unauthorized));
}

#[test]
fn duplicate_identifiers_are_refused() {
    let mut store = RecordStore::new();
    let reg = Registration {
        created: 7,
        name: "Alpha".to_string(),
        email: "aaaaaaaaaaaaaaaaaaaa".to_string(),
        address: "addr1".to_string(),
    };
    store.put(5, reg.clone()).unwrap();
    let err = store.put(5, reg).unwrap_err();
    assert!(matches!(err, ContractError::DuplicateKey));
}

#[test]
fn sequencer_continues_after_the_maximum_key() {
    let mut store = RecordStore::new();
    assert_eq!(next_id(&store), 1);
    assert_eq!(last_registration(&store).unwrap(), 0);
    let reg = Registration {
        created: 7,
        name: "Alpha".to_string(),
        email: "aaaaaaaaaaaaaaaaaaaa".to_string(),
        address: "addr1".to_string(),
    };
    store.put(7, reg).unwrap();
    assert_eq!(last_registration(&store).unwrap(), 7);
    assert_eq!(next_id(&store), 8);
}

#[test]
fn record_reports_method_and_name() {
    let mut store = initialized("reg-owner");
    let msg = RecordMsg {
        name: "Alpha".to_string(),
        email: "aaaaaaaaaaaaaaaaaaaa".to_string(),
        address: "addr1".to_string(),
    };
    let resp = record(&mut store, 7, &plain_info("reg-owner"), msg).unwrap();
    assert_eq!(resp.attributes.len(), 2);
    assert_eq!(resp.attributes[0].key, "method");
    assert_eq!(resp.attributes[0].value, "record");
    assert_eq!(resp.attributes[1].key, "name");
    assert_eq!(resp.attributes[1].value, "Alpha");
}

#[test]
fn instantiate_validates_the_owner_address() {
    let mut store = RecordStore::new();
    let err = instantiate(
        &mut store,
        &plain_info("someone"),
        InstantiateMsg {
            owner: "ab".to_string(),
        },
    )
    .unwrap_err();
    assert!(matches!(err, ContractError::Std));

    let mut fine = RecordStore::new();
    let resp = instantiate(
        &mut fine,
        &plain_info("someone"),
        InstantiateMsg {
            owner: "the-man".to_string(),
        },
    )
    .unwrap();
    assert_eq!(resp.attributes[0].key, "method");
    assert_eq!(resp.attributes[0].value, "instantiate");
    assert_eq!(resp.attributes[1].key, "owner");
    assert_eq!(resp.attributes[1].value, "the-man");
}

#[test]
fn instantiate_stores_the_version_marker() {
    let store = initialized("reg-owner");
    let (name, version) = store.stored_version().unwrap();
    assert_eq!(name, "crates.io:legends-registration");
    assert_eq!(version, "0.1.0");
}

#[test]
fn migrate_requires_a_strictly_older_marker() {
    let mut fresh = RecordStore::new();
    let err = migrate(&mut fresh, MigrateMsg {}).unwrap_err();
    assert!(matches!(err, ContractError::Std));

    let mut store = initialized("reg-owner");
    let err = migrate(&mut store, MigrateMsg {}).unwrap_err();
    assert!(matches!(err, ContractError::Std));
    assert!(store.stored_version().is_some());
}

#[test]
fn into_response_carries_every_field() {
    let reg = Registration {
        created: 42,
        name: "Alpha".to_string(),
        email: "aaaaaaaaaaaaaaaaaaaa".to_string(),
        address: "addr1".to_string(),
    };
    let resp = reg.into_response(9);
    assert_eq!(resp.id, 9);
    assert_eq!(resp.created, 42);
    assert_eq!(resp.name, "Alpha");
    assert_eq!(resp.email, "aaaaaaaaaaaaaaaaaaaa");
    assert_eq!(resp.address, "addr1");
}
