use ore_stats::round_summary::{
    round_summary, AnalyzedTransaction, LoggedDeployment, OreAnalysis, OreDeploymentInfo, ProgramInvocation,
};

fn program(key: &str, name: &str, count: usize) -> ProgramInvocation {
    ProgramInvocation { pubkey: key.to_string(), name: name.to_string(), invocation_count: count }
}

fn deploy(authority: &str, per_square: u64, squares: &[u8], round_matches: bool) -> OreDeploymentInfo {
    OreDeploymentInfo {
        authority: authority.to_string(),
        total_lamports: per_square * squares.len() as u64,
        amount_per_square: per_square,
        squares: squares.to_vec(),
        round_matches,
    }
}

fn logged(authority: Option<&str>, round_matches: bool, matched_parsed: bool) -> LoggedDeployment {
    LoggedDeployment { authority: authority.map(|a| a.to_string()), round_matches, matched_parsed }
}

fn plain(fee: u64, compute: Option<u64>, success: bool, signers: &[&str], programs: Vec<ProgramInvocation>) -> AnalyzedTransaction {
    AnalyzedTransaction {
        fee,
        compute_units_consumed: compute,
        success,
        signers: signers.iter().map(|s| s.to_string()).collect(),
        programs_invoked: programs,
        ore_analysis: None,
    }
}

#[test]
fn empty_round_has_no_ore_summary() {
    let r = round_summary(&Vec::new());
    assert_eq!(r.total_transactions, 0);
    assert_eq!(r.successful_transactions, 0);
    assert_eq!(r.failed_transactions, 0);
    assert_eq!(r.total_fee_paid, 0);
    assert_eq!(r.total_compute_units, 0);
    assert_eq!(r.unique_signers, 0);
    assert!(r.programs_used.is_empty());
    assert!(r.ore_summary.is_none());
}

#[test]
fn fees_compute_outcomes_and_signers() {
    let txs = vec![
        plain(5000, Some(1200), true, &["A", "B"], vec![]),
        plain(7000, None, false, &["B"], vec![]),
        plain(5000, Some(300), true, &["C", "A"], vec![]),
    ];
    let r = round_summary(&txs);
    assert_eq!(r.total_transactions, 3);
    assert_eq!(r.successful_transactions, 2);
    assert_eq!(r.failed_transactions, 1);
    assert_eq!(r.total_fee_paid, 17000);
    assert_eq!(r.total_compute_units, 1500);
    assert_eq!(r.unique_signers, 3);
    assert!(r.ore_summary.is_none());
}

#[test]
fn programs_are_merged_by_key_keeping_the_first_name() {
    let txs = vec![
        plain(1, None, true, &["A"], vec![program("Prog2", "ore", 2), program("Prog1", "system", 1)]),
        plain(1, None, true, &["A"], vec![program("Prog2", "renamed", 3)]),
    ];
    let r = round_summary(&txs);
    assert_eq!(r.programs_used.len(), 2);
    assert_eq!(r.programs_used[0].program, "Prog1");
    assert_eq!(r.programs_used[0].name, "system");
    assert_eq!(r.programs_used[0].invocation_count, 1);
    assert_eq!(r.programs_used[1].program, "Prog2");
    assert_eq!(r.programs_used[1].name, "ore");
    assert_eq!(r.programs_used[1].invocation_count, 5);
}

#[test]
fn deployments_per_square_and_miners() {
    let tx1 = AnalyzedTransaction {
        fee: 5000,
        compute_units_consumed: Some(10),
        success: true,
        signers: vec!["M1".to_string()],
        programs_invoked: vec![],
        ore_analysis: Some(OreAnalysis {
            deployments: vec![deploy("M1", 100, &[3, 7], true), deploy("M2", 50, &[7], false)],
            logged_deploy_count: 2,
            logged_deployed_lamports: 260,
            logged_deployments: vec![
                logged(Some("M1"), true, true),
                logged(Some("M3"), true, false),
                logged(None, true, false),
                logged(Some("M4"), false, false),
            ],
        }),
    };
    let tx2 = AnalyzedTransaction {
        fee: 5000,
        compute_units_consumed: None,
        success: true,
        signers: vec!["M1".to_string()],
        programs_invoked: vec![],
        ore_analysis: Some(OreAnalysis {
            deployments: vec![deploy("M1", 10, &[3], true)],
            logged_deploy_count: 1,
            logged_deployed_lamports: 10,
            logged_deployments: vec![logged(Some("M1"), true, true)],
        }),
    };
    let r = round_summary(&vec![tx1, tx2]);
    assert_eq!(r.unique_signers, 1);
    let o = r.ore_summary.expect("deployments were parsed");
    assert_eq!(o.total_deployments, 3);
    assert_eq!(o.deployments_matching_round, 2);
    assert_eq!(o.deployments_wrong_round, 1);
    assert_eq!(o.unique_miners, 2);
    assert_eq!(o.total_deployed_lamports, 260);
    assert_eq!(o.squares_deployed.len(), 2);
    assert_eq!(o.squares_deployed[0].square, 3);
    assert_eq!(o.squares_deployed[0].deployment_count, 2);
    assert_eq!(o.squares_deployed[0].total_lamports, 110);
    assert_eq!(o.squares_deployed[1].square, 7);
    assert_eq!(o.squares_deployed[1].deployment_count, 2);
    assert_eq!(o.squares_deployed[1].total_lamports, 150);
    assert_eq!(o.logged_deploy_count, 3);
    assert_eq!(o.logged_deployed_lamports, 270);
    assert_eq!(o.logged_unique_miners, 2);
    assert_eq!(o.logged_unmatched_count, 2);
    assert_eq!(o.logged_vs_parsed_diff_lamports, 10);
}

#[test]
fn logged_deploys_alone_give_an_ore_summary() {
    let tx = AnalyzedTransaction {
        fee: 1,
        compute_units_consumed: None,
        success: false,
        signers: vec![],
        programs_invoked: vec![],
        ore_analysis: Some(OreAnalysis {
            deployments: vec![],
            logged_deploy_count: 1,
            logged_deployed_lamports: 40,
            logged_deployments: vec![logged(Some("M9"), true, false)],
        }),
    };
    let r = round_summary(&vec![tx]);
    let o = r.ore_summary.expect("a deploy was logged");
    assert_eq!(o.total_deployments, 0);
    assert!(o.squares_deployed.is_empty());
    assert_eq!(o.logged_unique_miners, 1);
    assert_eq!(o.logged_unmatched_count, 1);
    assert_eq!(o.logged_vs_parsed_diff_lamports, 40);
}

#[test]
fn ore_analysis_without_deploys_gives_no_ore_summary() {
    let tx = AnalyzedTransaction {
        fee: 1,
        compute_units_consumed: None,
        success: true,
        signers: vec![],
        programs_invoked: vec![],
        ore_analysis: Some(OreAnalysis {
            deployments: vec![],
            logged_deploy_count: 0,
            logged_deployed_lamports: 0,
            logged_deployments: vec![],
        }),
    };
    let r = round_summary(&vec![tx]);
    assert!(r.ore_summary.is_none());
}

#[test]
fn parsed_above_logged_gives_a_negative_difference() {
    let tx = AnalyzedTransaction {
        fee: 1,
        compute_units_consumed: None,
        success: true,
        signers: vec![],
        programs_invoked: vec![],
        ore_analysis: Some(OreAnalysis {
            deployments: vec![deploy("M1", 25, &[0, 24], true)],
            logged_deploy_count: 0,
            logged_deployed_lamports: 0,
            logged_deployments: vec![],
        }),
    };
    let r = round_summary(&vec![tx]);
    let o = r.ore_summary.expect("a deploy was parsed");
    assert_eq!(o.logged_vs_parsed_diff_lamports, -50);
    assert_eq!(o.squares_deployed[0].square, 0);
    assert_eq!(o.squares_deployed[1].square, 24);
}
