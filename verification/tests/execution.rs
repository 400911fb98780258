use associate_eip::Error;
use associate_eip::actions::{Filter, parse_user_data};
use associate_eip::executor::{Command, Event, Executor, Step};
use associate_eip::ip::{Ipv4, Ipv6};
use associate_eip::resolver::MetadataQuery;
use associate_eip::selector::CandidateAddress;

fn fetch(q: MetadataQuery) -> Step {
    Step::Issue(Command::FetchMetadata(q))
}

#[test]
fn explicit_allocation_end_to_end() {
    let actions = parse_user_data("eipalloc-01234567890abcdef").unwrap();
    let mut exec = Executor::new(actions);
    assert_eq!(exec.step(Event::Begin), fetch(MetadataQuery::Region));
    assert_eq!(
        exec.step(Event::MetadataOk("us-west-2".to_string())),
        fetch(MetadataQuery::InstanceId)
    );
    assert_eq!(
        exec.step(Event::MetadataOk("i-01234567890abcdef".to_string())),
        Step::Issue(Command::AssociateAddress {
            allocation_id: "eipalloc-01234567890abcdef".to_string(),
            instance_id: "i-01234567890abcdef".to_string(),
            allow_reassociation: true,
        })
    );
    assert_eq!(
        exec.step(Event::AssociateOk("eipassoc-01234567890abcdef".to_string())),
        Step::Finished
    );
}

#[test]
fn filter_discovery_end_to_end() {
    let actions = parse_user_data(
        r#"{"Filters":[{"Name":"tag:Pool","Values":["ecs"]}],"AllowReassociation":false}"#,
    )
    .unwrap();
    let mut exec = Executor::new(actions);
    assert_eq!(exec.step(Event::Begin), fetch(MetadataQuery::Region));
    assert_eq!(
        exec.step(Event::MetadataOk("us-west-2".to_string())),
        fetch(MetadataQuery::InstanceId)
    );
    assert_eq!(
        exec.step(Event::MetadataOk("i-01234567890abcdef".to_string())),
        Step::Issue(Command::DescribeAddresses {
            filters: vec![Filter {
                name: "tag:Pool".to_string(),
                values: vec!["ecs".to_string()],
            }],
        })
    );
    // Two discovered addresses: one already associated, one free. The free
    // one must be chosen, deterministically.
    let discovered = vec![
        CandidateAddress {
            allocation_id: "eipalloc-00000000000000002".to_string(),
            is_currently_associated: true,
        },
        CandidateAddress {
            allocation_id: "eipalloc-01234567890abcdef".to_string(),
            is_currently_associated: false,
        },
    ];
    assert_eq!(
        exec.step(Event::AddressesDescribed(discovered)),
        Step::Issue(Command::AssociateAddress {
            allocation_id: "eipalloc-01234567890abcdef".to_string(),
            instance_id: "i-01234567890abcdef".to_string(),
            allow_reassociation: false,
        })
    );
    assert_eq!(
        exec.step(Event::AssociateOk("eipassoc-01234567890abcdef".to_string())),
        Step::Finished
    );
}

#[test]
fn private_ipv4_end_to_end() {
    let actions = parse_user_data("10.3.0.10").unwrap();
    let mut exec = Executor::new(actions);
    assert_eq!(exec.step(Event::Begin), fetch(MetadataQuery::Region));
    assert_eq!(exec.step(Event::MetadataOk("us-west-2".to_string())), fetch(MetadataQuery::Mac));
    assert_eq!(
        exec.step(Event::MetadataOk("02:b2:0b:a9:64:5b".to_string())),
        fetch(MetadataQuery::InterfaceIdForMac("02:b2:0b:a9:64:5b".to_string()))
    );
    assert_eq!(
        exec.step(Event::MetadataOk("eni-01234567a8e25de7c".to_string())),
        Step::Issue(Command::AssignPrivateIpv4 {
            network_interface_id: "eni-01234567a8e25de7c".to_string(),
            address: Ipv4 { o0: 10, o1: 3, o2: 0, o3: 10 },
        })
    );
    assert_eq!(exec.step(Event::AssignOk), Step::Finished);
}

#[test]
fn malformed_user_data_never_reaches_execution() {
    assert_eq!(parse_user_data("asdf"), Err(Error::MalformedInput));
}

#[test]
fn interface_id_fetched_exactly_twice_across_actions() {
    let actions = parse_user_data("10.3.0.10,fd12:3456:789a:1::a").unwrap();
    let mut exec = Executor::new(actions);
    assert_eq!(exec.step(Event::Begin), fetch(MetadataQuery::Region));
    assert_eq!(exec.step(Event::MetadataOk("us-west-2".to_string())), fetch(MetadataQuery::Mac));
    assert_eq!(
        exec.step(Event::MetadataOk("02:b2:0b:a9:64:5b".to_string())),
        fetch(MetadataQuery::InterfaceIdForMac("02:b2:0b:a9:64:5b".to_string()))
    );
    assert_eq!(
        exec.step(Event::MetadataOk("eni-01234567a8e25de7c".to_string())),
        Step::Issue(Command::AssignPrivateIpv4 {
            network_interface_id: "eni-01234567a8e25de7c".to_string(),
            address: Ipv4 { o0: 10, o1: 3, o2: 0, o3: 10 },
        })
    );
    // The second action needs the same fact: no further metadata lookup is
    // issued, the assignment command comes at once.
    assert_eq!(
        exec.step(Event::AssignOk),
        Step::Issue(Command::AssignIpv6 {
            network_interface_id: "eni-01234567a8e25de7c".to_string(),
            address: Ipv6 {
                g0: 0xfd12,
                g1: 0x3456,
                g2: 0x789a,
                g3: 0x1,
                g4: 0,
                g5: 0,
                g6: 0,
                g7: 0xa,
            },
        })
    );
    assert_eq!(exec.step(Event::AssignOk), Step::Finished);
    assert_eq!(exec.resolver.mac_fetches(), 1);
    assert_eq!(exec.resolver.interface_fetches(), 1);
}

#[test]
fn instance_id_fetched_once_across_actions() {
    let actions = parse_user_data("eipalloc-a,eipalloc-b").unwrap();
    let mut exec = Executor::new(actions);
    assert_eq!(exec.step(Event::Begin), fetch(MetadataQuery::Region));
    assert_eq!(
        exec.step(Event::MetadataOk("us-west-2".to_string())),
        fetch(MetadataQuery::InstanceId)
    );
    assert_eq!(
        exec.step(Event::MetadataOk("i-1".to_string())),
        Step::Issue(Command::AssociateAddress {
            allocation_id: "eipalloc-a".to_string(),
            instance_id: "i-1".to_string(),
            allow_reassociation: true,
        })
    );
    assert_eq!(
        exec.step(Event::AssociateOk("eipassoc-1".to_string())),
        Step::Issue(Command::AssociateAddress {
            allocation_id: "eipalloc-b".to_string(),
            instance_id: "i-1".to_string(),
            allow_reassociation: true,
        })
    );
    assert_eq!(exec.step(Event::AssociateOk("eipassoc-2".to_string())), Step::Finished);
}

#[test]
fn association_conflict_stops_the_batch() {
    let actions = parse_user_data("eipalloc-a,eipalloc-b").unwrap();
    let mut exec = Executor::new(actions);
    exec.step(Event::Begin);
    exec.step(Event::MetadataOk("us-west-2".to_string()));
    exec.step(Event::MetadataOk("i-1".to_string()));
    assert_eq!(exec.step(Event::AssociateConflict), Step::Failed(Error::AssociationConflict));
}

#[test]
fn assignment_rejection_stops_the_batch() {
    let actions = parse_user_data("10.3.0.10").unwrap();
    let mut exec = Executor::new(actions);
    exec.step(Event::Begin);
    exec.step(Event::MetadataOk("us-west-2".to_string()));
    exec.step(Event::MetadataOk("02:b2:0b:a9:64:5b".to_string()));
    exec.step(Event::MetadataOk("eni-1".to_string()));
    assert_eq!(exec.step(Event::AssignFailed), Step::Failed(Error::AssignmentRejected));
}

#[test]
fn metadata_failure_is_fatal() {
    let actions = parse_user_data("eipalloc-a").unwrap();
    let mut exec = Executor::new(actions);
    exec.step(Event::Begin);
    assert_eq!(exec.step(Event::MetadataFailed), Step::Failed(Error::MetadataUnavailable));
}

#[test]
fn empty_discovery_fails_the_batch() {
    let actions = parse_user_data(r#"{"Filters":[]}"#).unwrap();
    let mut exec = Executor::new(actions);
    exec.step(Event::Begin);
    exec.step(Event::MetadataOk("us-west-2".to_string()));
    exec.step(Event::MetadataOk("i-1".to_string()));
    assert_eq!(
        exec.step(Event::AddressesDescribed(vec![])),
        Step::Failed(Error::NoAddressesFound)
    );
}

#[test]
fn exhausted_pool_fails_without_reassociation() {
    let actions = parse_user_data(r#"{"Filters":[],"AllowReassociation":false}"#).unwrap();
    let mut exec = Executor::new(actions);
    exec.step(Event::Begin);
    exec.step(Event::MetadataOk("us-west-2".to_string()));
    exec.step(Event::MetadataOk("i-1".to_string()));
    let discovered = vec![CandidateAddress {
        allocation_id: "eipalloc-x".to_string(),
        is_currently_associated: true,
    }];
    assert_eq!(
        exec.step(Event::AddressesDescribed(discovered)),
        Step::Failed(Error::AllAddressesInUse)
    );
}
