use associate_eip::Error;
use associate_eip::actions::{Action, EipAction, Filter, parse_user_data};
use associate_eip::ip::{Ipv4, Ipv6};

fn eip(allocation_id: Option<&str>, allow: Option<bool>, filters: Option<Vec<Filter>>) -> Action {
    Action::Eip(EipAction {
        allocation_id: allocation_id.map(|s| s.to_string()),
        allow_reassociation: allow,
        filters,
    })
}

#[test]
fn parse_explicit_allocation_token() {
    let actions = parse_user_data("eipalloc-01234567890abcdef").unwrap();
    assert_eq!(actions, vec![eip(Some("eipalloc-01234567890abcdef"), None, None)]);
}

#[test]
fn parse_json_object_allocation() {
    let actions = parse_user_data(r#"{"AllocationId":"eipalloc-01234567890abcdef"}"#).unwrap();
    assert_eq!(actions, vec![eip(Some("eipalloc-01234567890abcdef"), None, None)]);
}

#[test]
fn parse_json_allow_reassociation_false() {
    let actions =
        parse_user_data(r#"{"AllocationId":"eipalloc-0abc","AllowReassociation":false}"#).unwrap();
    assert_eq!(actions, vec![eip(Some("eipalloc-0abc"), Some(false), None)]);
}

#[test]
fn parse_tag_filter_object() {
    let actions =
        parse_user_data(r#"{"Filters":[{"Name":"tag:Pool","Values":["ecs"]}],"AllowReassociation":false}"#)
            .unwrap();
    let expected = eip(
        None,
        Some(false),
        Some(vec![Filter { name: "tag:Pool".to_string(), values: vec!["ecs".to_string()] }]),
    );
    assert_eq!(actions, vec![expected]);
}

#[test]
fn parse_empty_filters() {
    let actions = parse_user_data(r#"{"Filters":[],"AllowReassociation":true}"#).unwrap();
    assert_eq!(actions, vec![eip(None, Some(true), Some(vec![]))]);
}

#[test]
fn parse_array_of_mixed_entries() {
    let actions = parse_user_data(
        r#" [ "eipalloc-aaa", "10.0.0.1", {"AllocationId": "eipalloc-bbb"} ] "#,
    )
    .unwrap();
    assert_eq!(actions.len(), 3);
    assert_eq!(actions[0], eip(Some("eipalloc-aaa"), None, None));
    assert_eq!(actions[1], Action::Ipv4(Ipv4 { o0: 10, o1: 0, o2: 0, o3: 1 }));
    assert_eq!(actions[2], eip(Some("eipalloc-bbb"), None, None));
}

#[test]
fn parse_comma_separated_tokens() {
    let actions = parse_user_data("eipalloc-a,10.3.0.10,fd12:3456:789a:1::a").unwrap();
    assert_eq!(actions.len(), 3);
    assert_eq!(actions[0], eip(Some("eipalloc-a"), None, None));
    assert_eq!(actions[1], Action::Ipv4(Ipv4 { o0: 10, o1: 3, o2: 0, o3: 10 }));
    assert_eq!(
        actions[2],
        Action::Ipv6(Ipv6 {
            g0: 0xfd12,
            g1: 0x3456,
            g2: 0x789a,
            g3: 0x1,
            g4: 0,
            g5: 0,
            g6: 0,
            g7: 0xa,
        })
    );
}

#[test]
fn parse_ipv6_forms() {
    let loopback = parse_user_data("::1").unwrap();
    assert_eq!(
        loopback,
        vec![Action::Ipv6(Ipv6 { g0: 0, g1: 0, g2: 0, g3: 0, g4: 0, g5: 0, g6: 0, g7: 1 })]
    );
    let full = parse_user_data("1:2:3:4:5:6:7:8").unwrap();
    assert_eq!(
        full,
        vec![Action::Ipv6(Ipv6 { g0: 1, g1: 2, g2: 3, g3: 4, g4: 5, g5: 6, g6: 7, g7: 8 })]
    );
    let embedded = parse_user_data("::ffff:1.2.3.4").unwrap();
    assert_eq!(
        embedded,
        vec![Action::Ipv6(Ipv6 {
            g0: 0,
            g1: 0,
            g2: 0,
            g3: 0,
            g4: 0,
            g5: 0xffff,
            g6: 0x0102,
            g7: 0x0304,
        })]
    );
}

#[test]
fn parse_rejects_bad_address_literals() {
    assert_eq!(parse_user_data("01.2.3.4"), Err(Error::MalformedInput));
    assert_eq!(parse_user_data("256.1.1.1"), Err(Error::MalformedInput));
    assert_eq!(parse_user_data("1.2.3"), Err(Error::MalformedInput));
    assert_eq!(parse_user_data(":::"), Err(Error::MalformedInput));
    assert_eq!(parse_user_data("1:2:3:4:5:6:7::8"), Err(Error::MalformedInput));
    assert_eq!(parse_user_data("12345::"), Err(Error::MalformedInput));
}

#[test]
fn parse_malformed_input() {
    assert_eq!(parse_user_data("asdf"), Err(Error::MalformedInput));
    assert_eq!(parse_user_data(""), Err(Error::MalformedInput));
    assert_eq!(parse_user_data("eipalloc-a,,eipalloc-b"), Err(Error::MalformedInput));
    assert_eq!(parse_user_data(r#"["eipalloc-a""#), Err(Error::MalformedInput));
    assert_eq!(parse_user_data(r#"{"AllocationId": 5}"#), Err(Error::MalformedInput));
    assert_eq!(parse_user_data(r#"[17]"#), Err(Error::MalformedInput));
}

#[test]
fn parse_ambiguous_both_id_and_filters() {
    assert_eq!(
        parse_user_data(r#"{"AllocationId":"eipalloc-a","Filters":[]}"#),
        Err(Error::AmbiguousEipSpec)
    );
}

#[test]
fn parse_ambiguous_neither_id_nor_filters() {
    assert_eq!(parse_user_data(r#"{}"#), Err(Error::AmbiguousEipSpec));
    assert_eq!(parse_user_data(r#"{"AllowReassociation":true}"#), Err(Error::AmbiguousEipSpec));
}

#[test]
fn parse_invalid_identifier_prefix() {
    assert_eq!(parse_user_data(r#"{"AllocationId":"foo"}"#), Err(Error::InvalidIdentifier));
}

#[test]
fn parse_whole_batch_validated_before_any_action() {
    // The first entry alone would be fine; the invalid second entry fails
    // the whole batch.
    assert_eq!(
        parse_user_data(r#"[{"AllocationId":"eipalloc-a"},{"AllocationId":"nope"}]"#),
        Err(Error::InvalidIdentifier)
    );
}

#[test]
fn parse_ignores_unknown_keys() {
    let actions = parse_user_data(
        r#"{"AllocationId":"eipalloc-a","Comment":[1,-2.5e3,{"deep":null},true],"Other":"x"}"#,
    )
    .unwrap();
    assert_eq!(actions, vec![eip(Some("eipalloc-a"), None, None)]);
}

#[test]
fn parse_rejects_duplicate_keys() {
    assert_eq!(
        parse_user_data(r#"{"AllocationId":"eipalloc-a","AllocationId":"eipalloc-b"}"#),
        Err(Error::MalformedInput)
    );
}

#[test]
fn parse_null_fields_count_as_absent() {
    assert_eq!(
        parse_user_data(r#"{"AllocationId":null,"Filters":[]}"#).unwrap(),
        vec![eip(None, None, Some(vec![]))]
    );
    assert_eq!(parse_user_data(r#"{"AllocationId":null}"#), Err(Error::AmbiguousEipSpec));
}

#[test]
fn parse_string_escapes_in_filters() {
    let actions =
        parse_user_data(r#"{"Filters":[{"Name":"tag:\"x\"","Values":["a\\b","c\nd"]}]}"#).unwrap();
    let expected = eip(
        None,
        None,
        Some(vec![Filter {
            name: "tag:\"x\"".to_string(),
            values: vec!["a\\b".to_string(), "c\nd".to_string()],
        }]),
    );
    assert_eq!(actions, vec![expected]);
}

#[test]
fn parse_whitespace_inside_structures() {
    let actions =
        parse_user_data("[ { \"AllocationId\" : \"eipalloc-a\" } ,\n \"10.0.0.1\" ]").unwrap();
    assert_eq!(actions.len(), 2);
    assert_eq!(actions[0], eip(Some("eipalloc-a"), None, None));
    assert_eq!(actions[1], Action::Ipv4(Ipv4 { o0: 10, o1: 0, o2: 0, o3: 1 }));
}

#[test]
fn parse_unicode_escapes() {
    let actions = parse_user_data(r#"["eip\u0061lloc-a"]"#).unwrap();
    assert_eq!(actions, vec![eip(Some("eipalloc-a"), None, None)]);
    let smiling = parse_user_data(r#"{"Filters":[{"Name":"\uD83D\uDE00","Values":[]}]}"#).unwrap();
    let expected = eip(
        None,
        None,
        Some(vec![Filter { name: "\u{1F600}".to_string(), values: vec![] }]),
    );
    assert_eq!(smiling, vec![expected]);
}

#[test]
fn parse_rejects_bad_unicode_escapes() {
    // A lone surrogate, a short escape, and a bad digit are all malformed.
    assert_eq!(parse_user_data(r#"["\uD83D"]"#), Err(Error::MalformedInput));
    assert_eq!(parse_user_data(r#"["\u00"]"#), Err(Error::MalformedInput));
    assert_eq!(parse_user_data(r#"["\u00zz"]"#), Err(Error::MalformedInput));
}

#[test]
fn parse_allows_repeated_unknown_keys() {
    let actions =
        parse_user_data(r#"{"AllocationId":"eipalloc-a","X":1,"X":2}"#).unwrap();
    assert_eq!(actions, vec![eip(Some("eipalloc-a"), None, None)]);
}

#[test]
fn parse_leading_whitespace_before_dispatch() {
    let actions = parse_user_data("  [\"eipalloc-a\"]\n").unwrap();
    assert_eq!(actions, vec![eip(Some("eipalloc-a"), None, None)]);
}
