use associate_eip::Error;
use associate_eip::selector::{CandidateAddress, select};

fn candidate(id: &str, associated: bool) -> CandidateAddress {
    CandidateAddress { allocation_id: id.to_string(), is_currently_associated: associated }
}

#[test]
fn single_available_candidate_is_deterministic() {
    let cands = vec![candidate("eipalloc-only", false)];
    let sel = select(&cands, false).unwrap();
    assert_eq!(sel.allocation_id, "eipalloc-only");
    assert_eq!(sel.pool_len, 1);
    assert!(!sel.used_randomness);
}

#[test]
fn single_associated_candidate_is_deterministic_when_reassociation_allowed() {
    let cands = vec![candidate("eipalloc-busy", true)];
    let sel = select(&cands, true).unwrap();
    assert_eq!(sel.allocation_id, "eipalloc-busy");
    assert_eq!(sel.pool_len, 1);
    assert!(!sel.used_randomness);
}

#[test]
fn many_trials_cover_every_available_candidate() {
    let cands = vec![
        candidate("eipalloc-a", false),
        candidate("eipalloc-b", false),
        candidate("eipalloc-c", false),
    ];
    let mut seen = [false; 3];
    for _ in 0..300 {
        let sel = select(&cands, false).unwrap();
        assert!(sel.used_randomness);
        assert_eq!(sel.pool_len, 3);
        match sel.allocation_id.as_str() {
            "eipalloc-a" => seen[0] = true,
            "eipalloc-b" => seen[1] = true,
            "eipalloc-c" => seen[2] = true,
            other => panic!("selected an unknown candidate: {other}"),
        }
    }
    assert!(seen[0] && seen[1] && seen[2]);
}

#[test]
fn selection_prefers_available_candidates() {
    let cands = vec![
        candidate("eipalloc-busy1", true),
        candidate("eipalloc-free1", false),
        candidate("eipalloc-busy2", true),
        candidate("eipalloc-free2", false),
    ];
    for _ in 0..100 {
        let sel = select(&cands, false).unwrap();
        assert!(sel.allocation_id == "eipalloc-free1" || sel.allocation_id == "eipalloc-free2");
        assert_eq!(sel.pool_len, 2);
    }
    // The same holds when reassociation is allowed: free addresses win.
    for _ in 0..100 {
        let sel = select(&cands, true).unwrap();
        assert!(sel.allocation_id == "eipalloc-free1" || sel.allocation_id == "eipalloc-free2");
    }
}

#[test]
fn all_in_use_fails_without_reassociation() {
    let cands = vec![candidate("eipalloc-x", true), candidate("eipalloc-y", true)];
    assert_eq!(select(&cands, false), Err(Error::AllAddressesInUse));
}

#[test]
fn all_in_use_picks_from_full_set_with_reassociation() {
    let cands = vec![candidate("eipalloc-x", true), candidate("eipalloc-y", true)];
    let sel = select(&cands, true).unwrap();
    assert!(sel.allocation_id == "eipalloc-x" || sel.allocation_id == "eipalloc-y");
    assert_eq!(sel.pool_len, 2);
}

#[test]
fn empty_discovery_fails() {
    let cands: Vec<CandidateAddress> = vec![];
    assert_eq!(select(&cands, true), Err(Error::NoAddressesFound));
    assert_eq!(select(&cands, false), Err(Error::NoAddressesFound));
}
