use ore_stats::transactions::{
    analyze_transaction, extract_deploy_instructions_fast, full_analysis_page, get_round_transactions, rounds_with_transactions_paging,
    squares_of_mask, summarize_transactions, viewer_page, InstructionJson, MessageJson, ParsedTransaction,
    RoundsWithTransactionsQuery, StoredTransaction, TransactionJson, TransactionViewerQuery,
};

const ORE_PROGRAM: &str = "oreV3EG1i9BEgiAJ8b177Z2S2rMarzak4NMv1kULvWv";
const KEY1: &str = "4vJ9JU1bJJE96FWSJKvHsmmFADCg4gpZQff4P3bkLKi";
const KEY2: &str = "8qbHbw2BbbTHBW1sbeqakYXVKRQM8Ne7pLK7m6CVfeR";
const KEY3: &str = "CktRuQ2mttgRGkXJtyksdKHjUdc2C4TgDzyB98oEzy8";
const KEY4: &str = "GgBaCs3NCBuZN12kCJgAW63ydqohFkHEdfdEXBPzLHq";
/// Deploy of 1000 lamports per square on squares 0 and 2.
const DEPLOY_DATA: &str = "aN7B1FT9ZVTrrynHV";

fn round_key(round_id: u64) -> String {
    ore_api::state::round_pda(round_id).0.to_string()
}

fn key_bytes(text: &str) -> [u8; 32] {
    let v = bs58::decode(text).into_vec().unwrap();
    let mut b = [0u8; 32];
    b.copy_from_slice(&v);
    b
}

fn ix(program: u64, data: &str, accounts: &[u64]) -> InstructionJson {
    InstructionJson {
        program_id_index: Some(program),
        data: Some(data.to_string()),
        accounts: Some(accounts.iter().map(|a| Some(*a)).collect()),
    }
}

/// Keys: signer, authority, automation, miner-of-fast-scan, miner, round, program.
fn deploy_tx(round: &str, ixs: Vec<InstructionJson>) -> ParsedTransaction {
    let keys = vec![KEY1, KEY2, KEY3, KEY4, KEY3, round, ORE_PROGRAM];
    ParsedTransaction::Valid(TransactionJson {
        failure: None,
        message: Some(MessageJson {
            account_keys: Some(keys.into_iter().map(|k| Some(k.to_string())).collect()),
            instructions: Some(ixs),
        }),
        inner_instructions: None,
    })
}

#[test]
fn squares_of_mask_lists_selected_squares() {
    assert_eq!(squares_of_mask(0b101), vec![0u8, 2]);
    assert_eq!(squares_of_mask(0), Vec::<u8>::new());
    assert_eq!(squares_of_mask(u32::MAX).len(), 25);
}

#[test]
fn analyze_unreadable_transaction() {
    let a = analyze_transaction("sig".to_string(), 9, 100, &ParsedTransaction::Invalid("eof".to_string()), &[0u8; 32]);
    assert_eq!(a.signature, "sig");
    assert_eq!(a.slot, 9);
    assert_eq!(a.block_time, 100);
    assert_eq!(a.status, "json_error");
    assert_eq!(a.parse_errors, vec!["JSON parse error: eof".to_string()]);
}

#[test]
fn analyze_failed_and_malformed_transactions() {
    let failed = ParsedTransaction::Valid(TransactionJson {
        failure: Some("InstructionError".to_string()),
        message: None,
        inner_instructions: None,
    });
    let a = analyze_transaction("s".to_string(), 1, 2, &failed, &[0u8; 32]);
    assert_eq!(a.status, "failed");
    assert_eq!(a.parse_errors, vec!["Transaction failed: InstructionError".to_string()]);

    let no_message = ParsedTransaction::Valid(TransactionJson { failure: None, message: None, inner_instructions: None });
    let a = analyze_transaction("s".to_string(), 1, 2, &no_message, &[0u8; 32]);
    assert_eq!(a.status, "malformed");
    assert_eq!(a.parse_errors, vec!["Missing transaction.message".to_string()]);

    let no_keys = ParsedTransaction::Valid(TransactionJson {
        failure: None,
        message: Some(MessageJson { account_keys: None, instructions: None }),
        inner_instructions: None,
    });
    let a = analyze_transaction("s".to_string(), 1, 2, &no_keys, &[0u8; 32]);
    assert_eq!(a.status, "malformed");
    assert_eq!(a.parse_errors, vec!["Missing accountKeys".to_string()]);
}

#[test]
fn analyze_deploy_for_expected_round() {
    let round = round_key(5);
    let tx = deploy_tx(&round, vec![ix(6, DEPLOY_DATA, &[0, 1, 2, 3, 4, 5])]);
    let a = analyze_transaction("sig".to_string(), 10, 20, &tx, &key_bytes(&round));
    assert_eq!(a.status, "deploy_matched");
    assert!(a.has_ore_program);
    assert_eq!(a.signer, Some(KEY1.to_string()));
    assert_eq!(a.instructions_count, 1);
    assert_eq!(a.inner_instructions_count, 0);
    assert!(a.parse_errors.is_empty());
    assert_eq!(a.deploy_instructions.len(), 1);
    let d = &a.deploy_instructions[0];
    assert_eq!(d.location, "outer");
    assert_eq!(d.instruction_index, 0);
    assert_eq!(d.signer, KEY1);
    assert_eq!(d.authority, KEY2);
    assert_eq!(d.miner, KEY3);
    assert_eq!(d.round_pda, round);
    assert_eq!(d.amount_per_square, 1000);
    assert_eq!(d.squares_mask, 0b101);
    assert_eq!(d.squares, vec![0u8, 2]);
    assert!(d.matches_expected_round);
}

#[test]
fn analyze_deploy_for_other_round() {
    let round = round_key(5);
    let tx = deploy_tx(&round, vec![ix(6, DEPLOY_DATA, &[0, 1, 2, 3, 4, 5])]);
    let a = analyze_transaction("sig".to_string(), 10, 20, &tx, &key_bytes(&round_key(6)));
    assert_eq!(a.status, "deploy_wrong_round");
    assert!(!a.deploy_instructions[0].matches_expected_round);
}

#[test]
fn analyze_other_instructions_and_errors() {
    let round = round_key(5);
    let tx = deploy_tx(
        &round,
        vec![
            ix(6, "fxs", &[0]),
            ix(6, "31y3", &[0]),
            ix(6, "0OIl", &[0]),
            ix(0, DEPLOY_DATA, &[0]),
            InstructionJson { program_id_index: Some(6), data: None, accounts: None },
        ],
    );
    let a = analyze_transaction("sig".to_string(), 1, 1, &tx, &key_bytes(&round));
    assert_eq!(a.status, "ore_non_deploy");
    assert_eq!(a.other_ore_instructions.len(), 1);
    assert_eq!(a.other_ore_instructions[0].instruction_tag, 2);
    assert_eq!(a.other_ore_instructions[0].instruction_name, "Checkpoint");
    assert_eq!(a.parse_errors.len(), 3);
    assert_eq!(a.parse_errors[0], "outer ix 1: Deploy data too short (3 < 13)");
    let decode_error = bs58::decode("0OIl").into_vec().unwrap_err();
    assert_eq!(a.parse_errors[1], format!("outer ix 2: base58 decode error: {}", decode_error));
    assert_eq!(a.parse_errors[2], "outer ix 4: missing data");
}

#[test]
fn analyze_unknown_tag_and_invalid_key() {
    let round = round_key(5);
    // Tag 7 is no ORE instruction.
    let data = bs58::encode([7u8, 1, 2]).into_string();
    let keys = vec![Some(KEY1.to_string()), None, Some("not-a-key".to_string()), Some(ORE_PROGRAM.to_string())];
    let tx = ParsedTransaction::Valid(TransactionJson {
        failure: None,
        message: Some(MessageJson { account_keys: Some(keys), instructions: Some(vec![ix(1, &data, &[0])]) }),
        inner_instructions: Some(vec![None, Some(vec![ix(1, &data, &[0]), ix(0, &data, &[0])])]),
    });
    let a = analyze_transaction("sig".to_string(), 1, 1, &tx, &key_bytes(&round));
    assert_eq!(a.parse_errors, vec!["Account key not a string".to_string(), "Invalid pubkey: not-a-key".to_string()]);
    assert_eq!(a.inner_instructions_count, 2);
    assert_eq!(a.other_ore_instructions.len(), 2);
    assert_eq!(a.other_ore_instructions[0].instruction_name, "Unknown(7)");
    assert_eq!(a.other_ore_instructions[1].location, "inner");
    assert_eq!(a.other_ore_instructions[1].instruction_index, 0);
}

#[test]
fn analyze_without_ore() {
    let tx = ParsedTransaction::Valid(TransactionJson {
        failure: None,
        message: Some(MessageJson { account_keys: Some(vec![Some(KEY1.to_string())]), instructions: None }),
        inner_instructions: None,
    });
    let a = analyze_transaction("sig".to_string(), 1, 1, &tx, &[0u8; 32]);
    assert_eq!(a.status, "no_ore");
    assert!(!a.has_ore_program);

    let with_program = ParsedTransaction::Valid(TransactionJson {
        failure: None,
        message: Some(MessageJson { account_keys: Some(vec![Some(ORE_PROGRAM.to_string())]), instructions: Some(vec![]) }),
        inner_instructions: None,
    });
    let a = analyze_transaction("sig".to_string(), 1, 1, &with_program, &[0u8; 32]);
    assert_eq!(a.status, "ore_no_ix_found");
}

#[test]
fn fast_scan_finds_deploys() {
    let round = round_key(5);
    let tx = deploy_tx(&round, vec![ix(0, DEPLOY_DATA, &[0, 1, 2]), ix(6, DEPLOY_DATA, &[0, 1, 3]), ix(6, "fxs", &[0, 1, 2])]);
    let found = extract_deploy_instructions_fast(&tx, 5).unwrap();
    assert_eq!(found.len(), 1);
    assert_eq!(found[0].authority, KEY1);
    assert_eq!(found[0].miner, KEY4);
    assert_eq!(found[0].ix_index, 1);
}

#[test]
fn fast_scan_errors() {
    let r = extract_deploy_instructions_fast(&ParsedTransaction::Invalid("bad".to_string()), 1);
    assert_eq!(r.err(), Some("JSON parse error: bad".to_string()));
    let no_message = ParsedTransaction::Valid(TransactionJson { failure: None, message: None, inner_instructions: None });
    assert_eq!(extract_deploy_instructions_fast(&no_message, 1).err(), Some("Missing message".to_string()));
    let no_ixs = ParsedTransaction::Valid(TransactionJson {
        failure: None,
        message: Some(MessageJson { account_keys: None, instructions: None }),
        inner_instructions: None,
    });
    assert_eq!(extract_deploy_instructions_fast(&no_ixs, 1).err(), Some("Missing instructions".to_string()));
}

#[test]
fn viewer_page_defaults_and_bounds() {
    assert_eq!(viewer_page(250, &TransactionViewerQuery { limit: None, offset: None }), (0, 100));
    assert_eq!(viewer_page(250, &TransactionViewerQuery { limit: Some(10), offset: Some(245) }), (245, 250));
    assert_eq!(viewer_page(5, &TransactionViewerQuery { limit: Some(10), offset: Some(9) }), (5, 5));
}

#[test]
fn rounds_paging() {
    assert_eq!(rounds_with_transactions_paging(&RoundsWithTransactionsQuery { page: None, limit: None }), (1, 50, 0));
    assert_eq!(rounds_with_transactions_paging(&RoundsWithTransactionsQuery { page: Some(3), limit: Some(500) }), (3, 200, 400));
    assert_eq!(rounds_with_transactions_paging(&RoundsWithTransactionsQuery { page: Some(0), limit: Some(20) }), (0, 20, 0));
}

#[test]
fn round_transactions_page_and_summary() {
    let round = round_key(5);
    let stored = |sig: &str, tx: ParsedTransaction| StoredTransaction {
        signature: sig.to_string(),
        slot: 1,
        block_time: 2,
        parsed: tx,
    };
    let txs = vec![
        stored("a", ParsedTransaction::Invalid("x".to_string())),
        stored("b", deploy_tx(&round, vec![ix(6, DEPLOY_DATA, &[0, 1, 2, 3, 4, 5]), ix(6, DEPLOY_DATA, &[0, 1, 2, 3, 4, 0])])),
        stored("c", deploy_tx(&round, vec![ix(6, "fxs", &[0])])),
        stored("d", deploy_tx(&round, vec![])),
    ];
    let r = get_round_transactions(5, txs, &TransactionViewerQuery { limit: Some(3), offset: Some(0) });
    assert_eq!(r.round_id, 5);
    assert_eq!(r.total_transactions, 4);
    assert_eq!(r.transactions.len(), 3);
    assert_eq!(r.transactions[1].signature, "b");
    assert_eq!(r.summary.total_txns, 4);
    assert_eq!(r.summary.with_deploy_ix, 1);
    assert_eq!(r.summary.without_deploy_ix, 1);
    assert_eq!(r.summary.parse_errors, 1);
    assert_eq!(r.summary.matched_round, 1);
    assert_eq!(r.summary.wrong_round, 1);
    assert_eq!(r.summary.total_deployments, 1);

    let again = summarize_transactions(7, &r.transactions);
    assert_eq!(again.total_txns, 7);
    assert_eq!(again.matched_round, 1);
}

#[test]
fn full_analysis_page_bounds() {
    assert_eq!(full_analysis_page(2_000, &TransactionViewerQuery { limit: None, offset: None }), (0, 500));
    assert_eq!(full_analysis_page(2_000, &TransactionViewerQuery { limit: Some(5_000), offset: Some(100) }), (100, 1_100));
    assert_eq!(full_analysis_page(50, &TransactionViewerQuery { limit: Some(10), offset: Some(45) }), (45, 50));
    assert_eq!(full_analysis_page(50, &TransactionViewerQuery { limit: None, offset: Some(80) }), (50, 50));
}

#[test]
fn unknown_tag_name_carries_its_decimal_value() {
    let round = round_key(5);
    for tag in [99u8, 200, 255] {
        let data = bs58::encode([tag, 1, 2]).into_string();
        let tx = deploy_tx(&round, vec![ix(6, &data, &[0])]);
        let a = analyze_transaction("sig".to_string(), 1, 1, &tx, &key_bytes(&round));
        let names: Vec<String> = a.other_ore_instructions.iter().map(|o| o.instruction_name.clone()).collect();
        assert_eq!(names, vec![format!("Unknown({})", tag)]);
    }
}
