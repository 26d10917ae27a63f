use kickflip::branch::{branch_from_trimmed, get_current_branch, is_in_branch, starting_branch};
use kickflip::names::{
    branch_name_of, digit_text, gen_branch_name, gen_kickflip_content, marker_content_of,
};
use kickflip::phases::{collapse, finalize, join_phase, split_phase};
use kickflip::pool::{
    branch_off, join_nonpermanent, join_permanent, merge_into, pick, split, KickflipError, Step,
};
use kickflip::run::{kickflip, plan};
use rand::rngs::StdRng;
use rand::SeedableRng;

fn rng(seed: u64) -> StdRng {
    StdRng::seed_from_u64(seed)
}

fn is_name(s: &str) -> bool {
    s.len() == 25 && s.starts_with("kickflip_") && s[9..].chars().all(|c| c.is_ascii_digit())
}

fn pool_of(names: &[&str]) -> Vec<String> {
    names.iter().map(|s| s.to_string()).collect()
}

fn merge_parts(steps: &[Step]) -> (String, String) {
    assert_eq!(steps.len(), 2);
    match (&steps[0], &steps[1]) {
        (Step::Checkout(receiver), Step::Merge(guest)) => (receiver.clone(), guest.clone()),
        other => panic!("not a merge: {:?}", other),
    }
}

#[test]
fn generated_names_match_pattern() {
    let mut r = rng(1);
    for _ in 0..50 {
        let name = gen_branch_name(&mut r);
        assert!(is_name(&name), "{}", name);
    }
}

#[test]
fn generated_names_differ() {
    let mut r = rng(2);
    let a = gen_branch_name(&mut r);
    let b = gen_branch_name(&mut r);
    assert_ne!(a, b);
}

#[test]
fn marker_content_shape() {
    let mut r = rng(3);
    let c = gen_kickflip_content(&mut r);
    assert_eq!(c.len(), 14 + 64);
    assert!(c.starts_with("Kickflipping: "));
    assert!(c[14..].chars().all(|c| c.is_ascii_digit()));
}

#[test]
fn digit_texts() {
    assert_eq!(digit_text(0), "0");
    assert_eq!(digit_text(5), "5");
    assert_eq!(digit_text(9), "9");
}

#[test]
fn merge_into_checks_out_receiver_then_merges_guest() {
    let steps = merge_into(&"guest".to_string(), &"receiver".to_string());
    assert_eq!(
        steps,
        vec![Step::Checkout("receiver".to_string()), Step::Merge("guest".to_string())]
    );
}

#[test]
fn branch_off_steps() {
    let mut r = rng(4);
    let steps = branch_off(&"main".to_string(), &"kickflip_0000000000000001".to_string(), &mut r);
    assert_eq!(steps.len(), 5);
    assert_eq!(steps[0], Step::Checkout("main".to_string()));
    assert_eq!(steps[1], Step::CreateBranch("kickflip_0000000000000001".to_string()));
    match &steps[2] {
        Step::WriteMarker(c) => assert!(c.starts_with("Kickflipping: ") && c.len() == 78),
        other => panic!("unexpected {:?}", other),
    }
    assert_eq!(steps[3], Step::StageMarker);
    assert_eq!(steps[4], Step::Commit("Kickflip!".to_string()));
}

#[test]
fn pick_empty_pool_fails() {
    let mut r = rng(5);
    assert_eq!(pick(&Vec::new(), &mut r), Err(KickflipError::EmptyBranchPool));
}

#[test]
fn pick_stays_in_pool() {
    let mut r = rng(6);
    let pool = pool_of(&["a", "b", "c"]);
    let mut seen = [false; 3];
    for _ in 0..200 {
        let i = pick(&pool, &mut r).unwrap();
        assert!(i < 3);
        seen[i] = true;
    }
    assert!(seen.iter().all(|s| *s));
}

#[test]
fn split_empty_pool_fails_without_steps() {
    let mut r = rng(7);
    let mut pool: Vec<String> = Vec::new();
    assert_eq!(split(&mut pool, &mut r), Err(KickflipError::EmptyBranchPool));
    assert!(pool.is_empty());
}

#[test]
fn joins_on_empty_pool_fail() {
    let mut r = rng(8);
    let mut pool: Vec<String> = Vec::new();
    assert_eq!(join_nonpermanent(&mut pool, &mut r), Err(KickflipError::EmptyBranchPool));
    assert_eq!(join_permanent(&mut pool, &mut r), Err(KickflipError::EmptyBranchPool));
    assert!(pool.is_empty());
}

#[test]
fn split_appends_new_branch() {
    let mut r = rng(9);
    let mut pool = pool_of(&["main"]);
    let steps = split(&mut pool, &mut r).unwrap();
    assert_eq!(pool.len(), 2);
    assert_eq!(pool[0], "main");
    assert!(is_name(&pool[1]));
    assert_eq!(steps[0], Step::Checkout("main".to_string()));
    assert_eq!(steps[1], Step::CreateBranch(pool[1].clone()));
}

#[test]
fn split_phase_grows_pool_by_n() {
    for n in 0..6u8 {
        let mut r = rng(10 + n as u64);
        let mut pool = pool_of(&["main"]);
        let batches = split_phase(&mut pool, n, &mut r).unwrap();
        assert_eq!(pool.len(), 1 + n as usize);
        assert_eq!(batches.len(), n as usize);
        assert!(pool[1..].iter().all(|b| is_name(b)));
    }
}

#[test]
fn split_phase_empty_pool() {
    let mut r = rng(11);
    let mut pool: Vec<String> = Vec::new();
    assert_eq!(split_phase(&mut pool, 1, &mut r), Err(KickflipError::EmptyBranchPool));
    assert_eq!(split_phase(&mut pool, 0, &mut r), Ok(Vec::new()));
}

#[test]
fn nonpermanent_join_keeps_pool() {
    let mut r = rng(12);
    let mut pool = pool_of(&["a", "b", "c"]);
    for _ in 0..20 {
        let steps = join_nonpermanent(&mut pool, &mut r).unwrap();
        let (receiver, guest) = merge_parts(&steps);
        assert!(pool.contains(&receiver) && pool.contains(&guest));
        assert_eq!(pool, pool_of(&["a", "b", "c"]));
    }
}

#[test]
fn join_phase_keeps_pool() {
    let mut r = rng(13);
    let mut pool = pool_of(&["a", "b"]);
    let batches = join_phase(&mut pool, 7, &mut r).unwrap();
    assert_eq!(batches.len(), 7);
    assert_eq!(pool, pool_of(&["a", "b"]));
    let mut empty: Vec<String> = Vec::new();
    assert_eq!(join_phase(&mut empty, 1, &mut r), Err(KickflipError::EmptyBranchPool));
}

#[test]
fn permanent_join_removes_guest() {
    let mut r = rng(14);
    let mut pool = pool_of(&["a", "b", "c", "d"]);
    let steps = join_permanent(&mut pool, &mut r).unwrap();
    let (_, guest) = merge_parts(&steps);
    assert_eq!(pool.len(), 3);
    assert!(!pool.contains(&guest));
}

#[test]
fn self_merge_still_removes_entry() {
    let mut r = rng(15);
    let mut pool = pool_of(&["main"]);
    let steps = join_permanent(&mut pool, &mut r).unwrap();
    assert_eq!(steps, vec![Step::Checkout("main".to_string()), Step::Merge("main".to_string())]);
    assert!(pool.is_empty());
}

#[test]
fn self_merge_nonpermanent_succeeds() {
    let mut r = rng(16);
    let mut pool = pool_of(&["main"]);
    let steps = join_nonpermanent(&mut pool, &mut r).unwrap();
    assert_eq!(steps, vec![Step::Checkout("main".to_string()), Step::Merge("main".to_string())]);
    assert_eq!(pool, pool_of(&["main"]));
}

#[test]
fn collapse_ends_with_one_branch() {
    for size in 1..8usize {
        let mut r = rng(20 + size as u64);
        let names: Vec<String> = (0..size).map(|i| format!("b{}", i)).collect();
        let mut pool = names.clone();
        let batches = collapse(&mut pool, &mut r);
        assert_eq!(pool.len(), 1);
        assert!(names.contains(&pool[0]));
        assert_eq!(batches.len(), size - 1);
    }
}

#[test]
fn collapse_empty_pool() {
    let mut r = rng(30);
    let mut pool: Vec<String> = Vec::new();
    assert!(collapse(&mut pool, &mut r).is_empty());
    assert!(pool.is_empty());
}

#[test]
fn finalize_steps() {
    let mut pool = pool_of(&["kickflip_1234567890123456"]);
    let steps = finalize(&mut pool, &"main".to_string()).unwrap();
    assert_eq!(
        steps,
        vec![
            Step::Checkout("main".to_string()),
            Step::Merge("kickflip_1234567890123456".to_string()),
            Step::RemoveMarker,
            Step::StageMarker,
            Step::Commit("End of Kickflip".to_string()),
        ]
    );
    assert!(pool.is_empty());
    assert_eq!(finalize(&mut pool, &"main".to_string()), Err(KickflipError::EmptyBranchPool));
}

#[test]
fn current_branch_from_report() {
    assert_eq!(get_current_branch("main\n"), Ok("main".to_string()));
    assert_eq!(get_current_branch("  feature/x \n"), Ok("feature/x".to_string()));
    assert_eq!(get_current_branch(""), Err(KickflipError::NotInBranch));
    assert_eq!(get_current_branch(" \n"), Err(KickflipError::NotInBranch));
}

#[test]
fn branch_from_trimmed_text() {
    assert_eq!(branch_from_trimmed("dev"), Ok("dev".to_string()));
    assert_eq!(branch_from_trimmed(""), Err(KickflipError::NotInBranch));
}

#[test]
fn in_branch_check() {
    assert_eq!(is_in_branch("main\n"), Ok(()));
    assert_eq!(is_in_branch("\n"), Err(KickflipError::NotInBranch));
}

#[test]
fn starting_branch_override() {
    assert_eq!(starting_branch(Some("dev".to_string()), "main\n"), Ok("dev".to_string()));
    assert_eq!(starting_branch(None, "main\n"), Ok("main".to_string()));
    assert_eq!(starting_branch(Some("dev".to_string()), ""), Err(KickflipError::NotInBranch));
}

#[test]
fn detached_head_gives_no_plan() {
    let mut r = rng(31);
    assert_eq!(kickflip(None, "", 2, 3, &mut r), Err(KickflipError::NotInBranch));
    assert_eq!(kickflip(Some("main".to_string()), "\n", 2, 3, &mut r), Err(KickflipError::NotInBranch));
}

#[test]
fn plan_sizes() {
    let mut r = rng(32);
    let batches = plan(&"main".to_string(), 16, 32, &mut r);
    assert_eq!(batches.len(), 2 * 16 + 32 + 1);
    let batches = plan(&"main".to_string(), 0, 0, &mut r);
    assert_eq!(
        batches,
        vec![vec![
            Step::Checkout("main".to_string()),
            Step::Merge("main".to_string()),
            Step::RemoveMarker,
            Step::StageMarker,
            Step::Commit("End of Kickflip".to_string()),
        ]]
    );
}

#[test]
fn end_to_end_two_splits_no_joins() {
    for seed in 40..60u64 {
        let mut r = rng(seed);
        let batches = kickflip(None, "main\n", 2, 0, &mut r).unwrap();
        assert_eq!(batches.len(), 5);
        let mut pool = pool_of(&["main"]);
        for batch in &batches[0..2] {
            assert_eq!(batch.len(), 5);
            match (&batch[0], &batch[1]) {
                (Step::Checkout(from), Step::CreateBranch(to)) => {
                    assert!(pool.contains(from));
                    assert!(is_name(to));
                    pool.push(to.clone());
                }
                other => panic!("not a split: {:?}", other),
            }
        }
        assert_eq!(pool.len(), 3);
        assert_ne!(pool[1], pool[2]);
        for batch in &batches[2..4] {
            let (receiver, guest) = merge_parts(batch);
            assert!(pool.contains(&receiver));
            let at = pool.iter().position(|b| *b == guest).unwrap();
            pool.remove(at);
        }
        assert_eq!(pool.len(), 1);
        let last = &batches[4];
        assert_eq!(last[0], Step::Checkout("main".to_string()));
        assert_eq!(last[1], Step::Merge(pool[0].clone()));
        assert_eq!(last[2], Step::RemoveMarker);
        assert_eq!(last[3], Step::StageMarker);
        assert_eq!(last[4], Step::Commit("End of Kickflip".to_string()));
    }
}

#[test]
fn branch_name_from_digits() {
    let digits: Vec<u8> = (0..16u8).map(|i| i % 10).collect();
    assert_eq!(branch_name_of(&digits), "kickflip_0123456789012345");
    assert_eq!(branch_name_of(&vec![9u8; 16]), "kickflip_9999999999999999");
}

#[test]
fn marker_content_from_digits() {
    let digits: Vec<u8> = (0..64u8).map(|i| (i * 7) % 10).collect();
    let expected: String = digits.iter().map(|d| char::from(b'0' + d)).collect();
    assert_eq!(marker_content_of(&digits), format!("Kickflipping: {}", expected));
}
