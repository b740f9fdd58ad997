use cw_starter::contract::{execute, instantiate};
use cw_starter::error::ContractError;
use cw_starter::msg::{attr, ExecuteMsg, InstantiateMsg, MessageInfo};
use cw_starter::store::Store;

pub const ADDR1: &str = "addr1";
pub const ADDR2: &str = "addr2";

fn mock_info(sender: &str) -> MessageInfo {
    MessageInfo { sender: sender.to_string() }
}

fn tallies(store: &Store, poll_id: &str) -> Vec<(String, u64)> {
    store.poll(&poll_id.to_string()).unwrap().options.clone()
}

fn selected(store: &Store, voter: &str, poll_id: &str) -> Option<String> {
    store.ballot(&voter.to_string(), &poll_id.to_string()).map(|b| b.option.clone())
}

fn chain_makers() -> ExecuteMsg {
    ExecuteMsg::CreatePoll {
        poll_id: "some_id".to_string(),
        question: "What's your fav chain maker?".to_string(),
        options: vec!["Cosmos".to_string(), "Substrate".to_string(), "Polkadot".to_string()],
    }
}

fn vote(poll_id: &str, option: &str) -> ExecuteMsg {
    ExecuteMsg::Vote { poll_id: poll_id.to_string(), vote: option.to_string() }
}

#[test]
fn test_instantiate() {
    let mut store = Store::new();
    let info = mock_info(ADDR1);
    let msg = InstantiateMsg { admin: None };
    let res = instantiate(&mut store, info, msg).unwrap();

    assert_eq!(
        res.attributes,
        vec![attr("action", "instantiate"), attr("admin", ADDR1)],
    )
}

#[test]
fn test_execute_create_poll_valid() {
    let mut store = Store::new();
    let info = mock_info(ADDR1);
    let msg = InstantiateMsg { admin: None };
    let _res = instantiate(&mut store, info.clone(), msg).unwrap();

    let msg = ExecuteMsg::CreatePoll {
        poll_id: "some_id".to_string(),
        question: "What's your fav chain maker?".to_string(),
        options: vec![
            "Cosmos".to_string(),
            "Substrate".to_string(),
            "Polkadot".to_string(),
        ],
    };
    let _res = execute(&mut store, info, msg).unwrap();
}

#[test]
fn test_execute_create_poll_invalid() {
    let mut store = Store::new();
    let info = mock_info(ADDR1);
    let msg = InstantiateMsg { admin: None };
    let _res = instantiate(&mut store, info.clone(), msg).unwrap();

    let msg = ExecuteMsg::CreatePoll {
        poll_id: "some_id.to_string(),
            question: What's your favourtie number?".to_string(),
        question: "What's your favourtie number?".to_string(),
        options: vec![
            "1".to_string(),
            "2".to_string(),
            "3".to_string(),
            "4".to_string(),
            "5".to_string(),
            "6".to_string(),
            "7".to_string(),
            "8".to_string(),
            "9".to_string(),
            "10".to_string(),
            "11".to_string(),
        ],
    };
    let _err = execute(&mut store, info, msg).unwrap_err();
}

#[test]
fn test_execute_vote_valid() {
    let mut store = Store::new();
    let info = mock_info(ADDR1);

    let msg = InstantiateMsg { admin: None };
    let _res = instantiate(&mut store, info.clone(), msg).unwrap();

    let msg = ExecuteMsg::CreatePoll {
        poll_id: "some_id".to_string(),
        question: "Whats your fav chain maker? ".to_string(),
        options: vec![
            "Cosmos".to_string(),
            "Substrate".to_string(),
            "Polkadot".to_string(),
        ],
    };
    let _res = execute(&mut store, info.clone(), msg).unwrap();

    let msg = ExecuteMsg::Vote {
        poll_id: "some_id".to_string(),
        vote: "Cosmos".to_string(),
    };
    let _res = execute(&mut store, info.clone(), msg).unwrap();

    let msg = ExecuteMsg::Vote {
        poll_id: "some_id".to_string(),
        vote: "Substrate".to_string(),
    };
    let _res = execute(&mut store, info, msg).unwrap();
}

#[test]
fn test_execute_vote_invalid() {
    let mut store = Store::new();
    let info = mock_info(ADDR1);

    let msg = InstantiateMsg { admin: None };
    let _res = instantiate(&mut store, info.clone(), msg).unwrap();

    let msg = ExecuteMsg::Vote {
        poll_id: "some_id".to_string(),
        vote: "Polkadot".to_string(),
    };

    let _err = execute(&mut store, info.clone(), msg).unwrap_err();

    let msg = ExecuteMsg::CreatePoll {
        poll_id: "some_id".to_string(),
        question: "What's your fav chain maker?".to_string(),
        options: vec![
            "Cosmos".to_string(),
            "Substrate".to_string(),
            "Polkadot".to_string(),
        ],
    };
    let _res = execute(&mut store, info.clone(), msg).unwrap();

    let msg = ExecuteMsg::Vote {
        poll_id: "some_id".to_string(),
        vote: "DVPN".to_string(),
    };
    let _err = execute(&mut store, info, msg).unwrap_err();
}

#[test]
fn instantiate_records_the_sender_as_admin() {
    let mut store = Store::new();
    assert!(store.config().is_none());
    instantiate(&mut store, mock_info(ADDR1), InstantiateMsg { admin: None }).unwrap();
    assert_eq!(store.config().as_ref().unwrap().admin, ADDR1);
}

#[test]
fn instantiate_prefers_the_named_admin() {
    let mut store = Store::new();
    let msg = InstantiateMsg { admin: Some(ADDR2.to_string()) };
    let res = instantiate(&mut store, mock_info(ADDR1), msg).unwrap();
    assert_eq!(res.attributes, vec![attr("action", "instantiate"), attr("admin", ADDR2)]);
    assert_eq!(store.config().as_ref().unwrap().admin, ADDR2);
}

#[test]
fn instantiate_again_replaces_the_admin_and_keeps_the_polls() {
    let mut store = Store::new();
    instantiate(&mut store, mock_info(ADDR1), InstantiateMsg { admin: None }).unwrap();
    execute(&mut store, mock_info(ADDR1), chain_makers()).unwrap();
    execute(&mut store, mock_info(ADDR1), vote("some_id", "Cosmos")).unwrap();
    instantiate(&mut store, mock_info(ADDR2), InstantiateMsg { admin: None }).unwrap();
    assert_eq!(store.config().as_ref().unwrap().admin, ADDR2);
    assert_eq!(tallies(&store, "some_id")[0], ("Cosmos".to_string(), 1));
    assert_eq!(selected(&store, ADDR1, "some_id"), Some("Cosmos".to_string()));
}

#[test]
fn create_poll_answers_with_action_and_identifier() {
    let mut store = Store::new();
    let res = execute(&mut store, mock_info(ADDR1), chain_makers()).unwrap();
    assert_eq!(res.attributes, vec![attr("action", "create_poll"), attr("poll_id", "some_id")]);
}

#[test]
fn create_poll_keeps_the_order_and_starts_at_zero() {
    let mut store = Store::new();
    execute(&mut store, mock_info(ADDR2), chain_makers()).unwrap();
    let poll = store.poll(&"some_id".to_string()).unwrap();
    assert_eq!(poll.creator, ADDR2);
    assert_eq!(poll.question, "What's your fav chain maker?");
    assert_eq!(
        poll.options,
        vec![
            ("Cosmos".to_string(), 0),
            ("Substrate".to_string(), 0),
            ("Polkadot".to_string(), 0),
        ]
    );
    assert_eq!(store.ballot_count(), 0);
}

#[test]
fn create_poll_accepts_ten_options_and_refuses_eleven() {
    let mut store = Store::new();
    let ten: Vec<String> = (1..=10).map(|n| n.to_string()).collect();
    let eleven: Vec<String> = (1..=11).map(|n| n.to_string()).collect();
    let msg = ExecuteMsg::CreatePoll {
        poll_id: "ten".to_string(),
        question: "Q".to_string(),
        options: ten.clone(),
    };
    execute(&mut store, mock_info(ADDR1), msg).unwrap();
    let labels: Vec<String> = tallies(&store, "ten").into_iter().map(|o| o.0).collect();
    assert_eq!(labels, ten);

    let msg = ExecuteMsg::CreatePoll {
        poll_id: "eleven".to_string(),
        question: "Q".to_string(),
        options: eleven,
    };
    let err = execute(&mut store, mock_info(ADDR1), msg).unwrap_err();
    assert_eq!(err, ContractError::TooManyOptions);
    assert!(store.poll(&"eleven".to_string()).is_none());
    assert!(store.poll(&"ten".to_string()).is_some());
}

#[test]
fn create_poll_accepts_no_options() {
    let mut store = Store::new();
    let msg = ExecuteMsg::CreatePoll {
        poll_id: "empty".to_string(),
        question: "Q".to_string(),
        options: vec![],
    };
    execute(&mut store, mock_info(ADDR1), msg).unwrap();
    assert!(tallies(&store, "empty").is_empty());
    let err = execute(&mut store, mock_info(ADDR1), vote("empty", "A")).unwrap_err();
    assert_eq!(err, ContractError::InvalidOption);
}

#[test]
fn create_poll_refuses_a_taken_identifier() {
    let mut store = Store::new();
    execute(&mut store, mock_info(ADDR1), chain_makers()).unwrap();
    execute(&mut store, mock_info(ADDR1), vote("some_id", "Polkadot")).unwrap();
    let again = ExecuteMsg::CreatePoll {
        poll_id: "some_id".to_string(),
        question: "Another question".to_string(),
        options: vec!["X".to_string()],
    };
    let err = execute(&mut store, mock_info(ADDR2), again).unwrap_err();
    assert_eq!(err, ContractError::PollAlreadyExists);
    let poll = store.poll(&"some_id".to_string()).unwrap();
    assert_eq!(poll.creator, ADDR1);
    assert_eq!(poll.options[2], ("Polkadot".to_string(), 1));
}

#[test]
fn too_many_options_is_reported_before_a_taken_identifier() {
    let mut store = Store::new();
    execute(&mut store, mock_info(ADDR1), chain_makers()).unwrap();
    let msg = ExecuteMsg::CreatePoll {
        poll_id: "some_id".to_string(),
        question: "Q".to_string(),
        options: (1..=11).map(|n| n.to_string()).collect(),
    };
    let err = execute(&mut store, mock_info(ADDR1), msg).unwrap_err();
    assert_eq!(err, ContractError::TooManyOptions);
}

#[test]
fn vote_answers_with_action_poll_and_option() {
    let mut store = Store::new();
    execute(&mut store, mock_info(ADDR1), chain_makers()).unwrap();
    let res = execute(&mut store, mock_info(ADDR1), vote("some_id", "Cosmos")).unwrap();
    assert_eq!(
        res.attributes,
        vec![attr("action", "cast_vote"), attr("poll_id", "some_id"), attr("option", "Cosmos")]
    );
}

#[test]
fn votes_follow_the_worked_example() {
    let mut store = Store::new();
    instantiate(&mut store, mock_info(ADDR1), InstantiateMsg { admin: None }).unwrap();
    assert_eq!(store.config().as_ref().unwrap().admin, ADDR1);

    let create = ExecuteMsg::CreatePoll {
        poll_id: "p1".to_string(),
        question: "Q".to_string(),
        options: vec!["A".to_string(), "B".to_string(), "C".to_string()],
    };
    execute(&mut store, mock_info(ADDR1), create).unwrap();
    let expect = |a: u64, b: u64, c: u64| {
        vec![("A".to_string(), a), ("B".to_string(), b), ("C".to_string(), c)]
    };
    assert_eq!(tallies(&store, "p1"), expect(0, 0, 0));

    execute(&mut store, mock_info(ADDR1), vote("p1", "A")).unwrap();
    assert_eq!(tallies(&store, "p1"), expect(1, 0, 0));

    execute(&mut store, mock_info(ADDR1), vote("p1", "B")).unwrap();
    assert_eq!(tallies(&store, "p1"), expect(0, 1, 0));

    execute(&mut store, mock_info(ADDR2), vote("p1", "B")).unwrap();
    assert_eq!(tallies(&store, "p1"), expect(0, 2, 0));

    let err = execute(&mut store, mock_info(ADDR1), vote("p1", "Z")).unwrap_err();
    assert_eq!(err, ContractError::InvalidOption);
    assert_eq!(tallies(&store, "p1"), expect(0, 2, 0));
    assert_eq!(selected(&store, ADDR1, "p1"), Some("B".to_string()));
    assert_eq!(selected(&store, ADDR2, "p1"), Some("B".to_string()));
}

#[test]
fn vote_in_an_unknown_poll_creates_no_ballot() {
    let mut store = Store::new();
    execute(&mut store, mock_info(ADDR1), chain_makers()).unwrap();
    let err = execute(&mut store, mock_info(ADDR1), vote("other_id", "Cosmos")).unwrap_err();
    assert_eq!(err, ContractError::PollNotFound);
    assert_eq!(selected(&store, ADDR1, "other_id"), None);
    assert_eq!(store.ballot_count(), 0);
    assert_eq!(tallies(&store, "some_id")[0], ("Cosmos".to_string(), 0));
}

#[test]
fn vote_for_an_unlisted_label_keeps_the_former_ballot() {
    let mut store = Store::new();
    execute(&mut store, mock_info(ADDR1), chain_makers()).unwrap();
    execute(&mut store, mock_info(ADDR1), vote("some_id", "Substrate")).unwrap();
    let before = tallies(&store, "some_id");
    let err = execute(&mut store, mock_info(ADDR1), vote("some_id", "DVPN")).unwrap_err();
    assert_eq!(err, ContractError::InvalidOption);
    assert_eq!(tallies(&store, "some_id"), before);
    assert_eq!(selected(&store, ADDR1, "some_id"), Some("Substrate".to_string()));
    assert_eq!(store.ballot_count(), 1);

    let err = execute(&mut store, mock_info(ADDR2), vote("some_id", "DVPN")).unwrap_err();
    assert_eq!(err, ContractError::InvalidOption);
    assert_eq!(selected(&store, ADDR2, "some_id"), None);
}

#[test]
fn voting_twice_for_the_same_option_changes_nothing() {
    let mut store = Store::new();
    execute(&mut store, mock_info(ADDR1), chain_makers()).unwrap();
    execute(&mut store, mock_info(ADDR1), vote("some_id", "Cosmos")).unwrap();
    let before = tallies(&store, "some_id");
    execute(&mut store, mock_info(ADDR1), vote("some_id", "Cosmos")).unwrap();
    assert_eq!(tallies(&store, "some_id"), before);
    assert_eq!(before[0], ("Cosmos".to_string(), 1));
    assert_eq!(selected(&store, ADDR1, "some_id"), Some("Cosmos".to_string()));
    assert_eq!(store.ballot_count(), 1);
}

#[test]
fn changing_a_vote_moves_exactly_one() {
    let mut store = Store::new();
    execute(&mut store, mock_info(ADDR1), chain_makers()).unwrap();
    for voter in ["v1", "v2", "v3"] {
        execute(&mut store, mock_info(voter), vote("some_id", "Cosmos")).unwrap();
    }
    execute(&mut store, mock_info("v4"), vote("some_id", "Polkadot")).unwrap();
    execute(&mut store, mock_info("v2"), vote("some_id", "Polkadot")).unwrap();
    assert_eq!(
        tallies(&store, "some_id"),
        vec![
            ("Cosmos".to_string(), 2),
            ("Substrate".to_string(), 0),
            ("Polkadot".to_string(), 2),
        ]
    );
    assert_eq!(selected(&store, "v2", "some_id"), Some("Polkadot".to_string()));
    assert_eq!(store.ballot_count(), 4);
}

#[test]
fn tallies_add_up_to_the_number_of_voters() {
    let mut store = Store::new();
    execute(&mut store, mock_info(ADDR1), chain_makers()).unwrap();
    let other = ExecuteMsg::CreatePoll {
        poll_id: "other".to_string(),
        question: "Q".to_string(),
        options: vec!["Cosmos".to_string(), "B".to_string()],
    };
    execute(&mut store, mock_info(ADDR1), other).unwrap();
    let moves = [
        ("v1", "some_id", "Cosmos"),
        ("v2", "some_id", "Substrate"),
        ("v1", "other", "B"),
        ("v1", "some_id", "Polkadot"),
        ("v3", "some_id", "Polkadot"),
        ("v2", "some_id", "Substrate"),
        ("v3", "some_id", "Cosmos"),
        ("v2", "other", "Cosmos"),
    ];
    for (voter, poll_id, option) in moves {
        execute(&mut store, mock_info(voter), vote(poll_id, option)).unwrap();
    }
    let total = |poll_id: &str| tallies(&store, poll_id).iter().map(|o| o.1).sum::<u64>();
    assert_eq!(total("some_id"), 3);
    assert_eq!(total("other"), 2);
    assert_eq!(store.ballot_count(), 5);
    assert_eq!(
        tallies(&store, "some_id"),
        vec![
            ("Cosmos".to_string(), 1),
            ("Substrate".to_string(), 1),
            ("Polkadot".to_string(), 1),
        ]
    );
    assert_eq!(tallies(&store, "other"), vec![("Cosmos".to_string(), 1), ("B".to_string(), 1)]);
}

#[test]
fn a_repeated_label_counts_at_its_first_place() {
    let mut store = Store::new();
    let msg = ExecuteMsg::CreatePoll {
        poll_id: "twice".to_string(),
        question: "Q".to_string(),
        options: vec!["A".to_string(), "B".to_string(), "A".to_string()],
    };
    execute(&mut store, mock_info(ADDR1), msg).unwrap();
    execute(&mut store, mock_info(ADDR1), vote("twice", "A")).unwrap();
    execute(&mut store, mock_info(ADDR2), vote("twice", "A")).unwrap();
    assert_eq!(
        tallies(&store, "twice"),
        vec![("A".to_string(), 2), ("B".to_string(), 0), ("A".to_string(), 0)]
    );
    execute(&mut store, mock_info(ADDR1), vote("twice", "B")).unwrap();
    assert_eq!(
        tallies(&store, "twice"),
        vec![("A".to_string(), 1), ("B".to_string(), 1), ("A".to_string(), 0)]
    );
}

#[test]
fn an_empty_store_holds_nothing() {
    let store = Store::new();
    assert!(store.config().is_none());
    assert!(store.poll(&"some_id".to_string()).is_none());
    assert!(store.ballot(&ADDR1.to_string(), &"some_id".to_string()).is_none());
    assert_eq!(store.ballot_count(), 0);
}

#[test]
fn empty_identifiers_and_labels_are_kept_as_given() {
    let mut store = Store::new();
    let msg = ExecuteMsg::CreatePoll {
        poll_id: String::new(),
        question: String::new(),
        options: vec![String::new(), "A".to_string()],
    };
    execute(&mut store, mock_info(ADDR1), msg).unwrap();
    execute(&mut store, mock_info(ADDR1), vote("", "")).unwrap();
    assert_eq!(tallies(&store, ""), vec![(String::new(), 1), ("A".to_string(), 0)]);
    assert_eq!(selected(&store, ADDR1, ""), Some(String::new()));
}

#[test]
fn one_voter_holds_one_ballot_in_each_poll() {
    let mut store = Store::new();
    execute(&mut store, mock_info(ADDR1), chain_makers()).unwrap();
    let other = ExecuteMsg::CreatePoll {
        poll_id: "other".to_string(),
        question: "Q".to_string(),
        options: vec!["Cosmos".to_string(), "Substrate".to_string()],
    };
    execute(&mut store, mock_info(ADDR2), other).unwrap();
    execute(&mut store, mock_info(ADDR1), vote("some_id", "Cosmos")).unwrap();
    execute(&mut store, mock_info(ADDR1), vote("other", "Substrate")).unwrap();
    execute(&mut store, mock_info(ADDR1), vote("some_id", "Substrate")).unwrap();
    assert_eq!(selected(&store, ADDR1, "some_id"), Some("Substrate".to_string()));
    assert_eq!(selected(&store, ADDR1, "other"), Some("Substrate".to_string()));
    assert_eq!(store.ballot_count(), 2);
    assert_eq!(
        tallies(&store, "other"),
        vec![("Cosmos".to_string(), 0), ("Substrate".to_string(), 1)]
    );
    assert_eq!(store.poll(&"other".to_string()).unwrap().creator, ADDR2);
}
