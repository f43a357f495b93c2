use glinscan::models::{
    Contract, ContractVerification, SourceFile, VerificationResult, VerificationStatus,
};
use glinscan::store::Store;
use glinscan::verification::{
    find_entry_source, find_manifest, plan_verification, process_pending_verifications,
    run_verification, PreparedVerification,
};

fn good_hash() -> String {
    format!("0x{}", "ab".repeat(32))
}

fn source_files() -> Vec<SourceFile> {
    vec![
        SourceFile { path: String::from("README.md"), content: String::from("docs") },
        SourceFile { path: String::from("lib.rs"), content: String::from("fn lib() {}") },
        SourceFile { path: String::from("src/lib.rs"), content: String::from("fn nested() {}") },
        SourceFile { path: String::from("Cargo.toml"), content: String::from("[package]") },
    ]
}

fn request(id: i32, address: &str, wasm_hash: String, created_at: i64) -> ContractVerification {
    ContractVerification {
        id,
        contract_address: String::from(address),
        wasm_hash,
        metadata: String::from("{}"),
        source_files: source_files(),
        compiler_version: None,
        status: VerificationStatus::Pending,
        error_message: None,
        verified_at: None,
        created_at,
    }
}

fn contract(address: &str) -> Contract {
    Contract {
        address: String::from(address),
        code_hash: good_hash(),
        deployer: String::from("alice"),
        deploy_block: Some(1),
        deploy_tx_hash: None,
        verified: false,
        created_at: 0,
    }
}

fn verified_outcome() -> Result<VerificationResult, String> {
    Ok(VerificationResult::Verified {
        code_hash: good_hash(),
        metadata: String::from("{}"),
    })
}

#[test]
fn entry_source_first_match_wins() {
    let files = source_files();
    assert_eq!(find_entry_source(&files), "fn lib() {}");
    assert_eq!(find_manifest(&files), "[package]");
}

#[test]
fn entry_source_nested_name_and_defaults() {
    let files = vec![
        SourceFile { path: String::from("src/lib.rs"), content: String::from("fn nested() {}") },
    ];
    assert_eq!(find_entry_source(&files), "fn nested() {}");
    assert_eq!(find_manifest(&files), "");
    assert_eq!(find_entry_source(&Vec::new()), "");
}

#[test]
fn plan_carries_sources_and_parsed_hash() {
    let v = request(1, "contract-1", good_hash(), 10);
    match plan_verification(&v) {
        PreparedVerification::Compile { entry_source, manifest, expected_hash } => {
            assert_eq!(entry_source, "fn lib() {}");
            assert_eq!(manifest, "[package]");
            assert_eq!(expected_hash, vec![0xab; 32]);
        }
        PreparedVerification::Invalid { message } => panic!("rejected: {message}"),
    }
}

#[test]
fn plan_rejects_malformed_hash_before_compiling() {
    let v = request(1, "contract-1", String::from("0xzz"), 10);
    match plan_verification(&v) {
        PreparedVerification::Compile { .. } => panic!("accepted a malformed hash"),
        PreparedVerification::Invalid { message } => {
            assert_eq!(message, "Invalid hash format");
        }
    }
}

#[test]
fn matching_hash_ends_in_success_and_marks_contract() {
    let mut store = Store::new();
    assert!(store.add_contract(contract("contract-1")));
    assert!(store.add_verification(request(7, "contract-1", good_hash(), 10)));

    assert!(run_verification(&mut store, 7, verified_outcome(), 5_000));

    let v = store.get_verification(7).unwrap();
    assert_eq!(v.status, VerificationStatus::Success);
    assert_eq!(v.error_message, None);
    assert_eq!(v.verified_at, Some(5_000));
    assert!(store.get_contract(&String::from("contract-1")).unwrap().verified);
}

#[test]
fn mismatched_hash_ends_in_failed_naming_both_hashes() {
    let mut store = Store::new();
    assert!(store.add_contract(contract("contract-2")));
    assert!(store.add_verification(request(8, "contract-2", good_hash(), 10)));

    let outcome = Ok(VerificationResult::HashMismatch {
        expected: String::from("0xaa"),
        actual: String::from("0xbb"),
    });
    assert!(run_verification(&mut store, 8, outcome, 5_000));

    let v = store.get_verification(8).unwrap();
    assert_eq!(v.status, VerificationStatus::Failed);
    assert_eq!(
        v.error_message.as_deref(),
        Some("Hash mismatch: expected 0xaa, got 0xbb")
    );
    assert_eq!(v.verified_at, None);
    assert!(!store.get_contract(&String::from("contract-2")).unwrap().verified);
}

#[test]
fn compilation_failure_carries_the_tool_text() {
    let mut store = Store::new();
    assert!(store.add_verification(request(9, "contract-3", good_hash(), 10)));

    let outcome = Ok(VerificationResult::CompilationFailed(String::from("missing crate type")));
    assert!(run_verification(&mut store, 9, outcome, 5_000));

    let v = store.get_verification(9).unwrap();
    assert_eq!(v.status, VerificationStatus::Failed);
    assert_eq!(
        v.error_message.as_deref(),
        Some("Compilation failed: missing crate type")
    );
}

#[test]
fn propagated_error_carries_its_description() {
    let mut store = Store::new();
    assert!(store.add_verification(request(10, "contract-4", good_hash(), 10)));

    assert!(run_verification(&mut store, 10, Err(String::from("workspace unavailable")), 5_000));

    let v = store.get_verification(10).unwrap();
    assert_eq!(v.status, VerificationStatus::Failed);
    assert_eq!(v.error_message.as_deref(), Some("workspace unavailable"));
}

#[test]
fn malformed_hash_fails_without_using_the_compile_outcome() {
    let mut store = Store::new();
    assert!(store.add_contract(contract("contract-5")));
    assert!(store.add_verification(request(11, "contract-5", String::from("0xzz"), 10)));

    // even a Verified outcome is ignored: the request failed before any compile
    assert!(run_verification(&mut store, 11, verified_outcome(), 5_000));

    let v = store.get_verification(11).unwrap();
    assert_eq!(v.status, VerificationStatus::Failed);
    assert_eq!(v.error_message.as_deref(), Some("Invalid hash format"));
    assert_eq!(v.verified_at, None);
    assert!(!store.get_contract(&String::from("contract-5")).unwrap().verified);
}

#[test]
fn wrong_hash_length_is_reported_as_length_error() {
    let mut store = Store::new();
    assert!(store.add_verification(request(12, "contract-6", String::from("0xabcd"), 10)));
    assert!(run_verification(&mut store, 12, verified_outcome(), 5_000));
    let v = store.get_verification(12).unwrap();
    assert_eq!(v.status, VerificationStatus::Failed);
    assert_eq!(v.error_message.as_deref(), Some("Invalid hash length"));
}

#[test]
fn missing_request_applies_nothing() {
    let mut store = Store::new();
    assert!(!run_verification(&mut store, 99, verified_outcome(), 5_000));
}

#[test]
fn one_pass_drives_every_touched_request_to_a_terminal_status() {
    let mut store = Store::new();
    assert!(store.add_contract(contract("contract-a")));
    assert!(store.add_verification(request(1, "contract-a", good_hash(), 10)));
    assert!(store.add_verification(request(2, "contract-a", String::from("0xzz"), 20)));
    assert!(store.add_verification(request(3, "contract-a", good_hash(), 30)));

    let outcomes = vec![
        verified_outcome(),
        verified_outcome(),
        Ok(VerificationResult::CompilationFailed(String::from("boom"))),
    ];
    let ids = process_pending_verifications(&mut store, outcomes, 7_000);
    assert_eq!(ids, vec![1, 2, 3]);

    assert_eq!(store.get_verification(1).unwrap().status, VerificationStatus::Success);
    assert_eq!(store.get_verification(2).unwrap().status, VerificationStatus::Failed);
    assert_eq!(store.get_verification(3).unwrap().status, VerificationStatus::Failed);
    assert!(store.get_contract(&String::from("contract-a")).unwrap().verified);
}

#[test]
fn a_pass_picks_up_the_oldest_first_and_at_most_the_batch_size() {
    let mut store = Store::new();
    for id in 1..=12 {
        assert!(store.add_verification(request(id, "contract-b", good_hash(), id as i64)));
    }
    let outcomes: Vec<Result<VerificationResult, String>> =
        (0..10).map(|_| verified_outcome()).collect();
    let ids = process_pending_verifications(&mut store, outcomes, 7_000);
    assert_eq!(ids, (1..=10).collect::<Vec<i32>>());

    assert_eq!(store.get_verification(10).unwrap().status, VerificationStatus::Success);
    assert_eq!(store.get_verification(11).unwrap().status, VerificationStatus::Pending);
    assert_eq!(store.get_verification(12).unwrap().status, VerificationStatus::Pending);

    // the next pass picks up what is left, oldest first
    let ids = process_pending_verifications(
        &mut store,
        vec![verified_outcome(), verified_outcome()],
        8_000,
    );
    assert_eq!(ids, vec![11, 12]);
    assert_eq!(store.get_verification(12).unwrap().status, VerificationStatus::Success);
}
