use retimestamp::changes::{
    check_head, id_is_zero, resolve, select_new_files, Delta, HeadState, RepositoryReading,
    ResolveError, TreeComparison,
};

fn absent() -> Vec<u8> {
    vec![0; 20]
}

fn present(seed: u8) -> Vec<u8> {
    let mut id = vec![0; 20];
    id[19] = seed;
    id
}

fn delta(old_present: bool, new_present: bool, path: &str) -> Delta {
    Delta {
        old_id: if old_present { present(1) } else { absent() },
        new_id: if new_present { present(2) } else { absent() },
        new_path: String::from(path),
    }
}

fn on_branch(name: &str, deltas: Vec<Delta>) -> RepositoryReading {
    RepositoryReading::Found {
        head: HeadState::Branch(String::from(name)),
        comparison: TreeComparison::Deltas(deltas),
    }
}

#[test]
fn zero_id_is_absent() {
    assert!(id_is_zero(&absent()));
    assert!(id_is_zero(&Vec::new()));
    assert!(!id_is_zero(&present(7)));
    let mut id = absent();
    id[0] = 1;
    assert!(!id_is_zero(&id));
}

#[test]
fn only_added_files_under_the_prefix_are_selected() {
    let inside = "db/migrate/1_a.rb";
    let outside = "app/models/a.rb";
    for old_present in [false, true] {
        for new_present in [false, true] {
            for path in [inside, outside] {
                let d = delta(old_present, new_present, path);
                let expected = !old_present && new_present && path == inside;
                assert_eq!(d.is_new_under("db/migrate"), expected);
                let selected = select_new_files(&vec![d], "db/migrate");
                if expected {
                    assert_eq!(selected, vec![String::from(inside)]);
                } else {
                    assert!(selected.is_empty());
                }
            }
        }
    }
}

#[test]
fn selection_keeps_the_order_of_the_deltas() {
    let deltas = vec![
        delta(false, true, "db/migrate/3_c.rb"),
        delta(true, true, "db/migrate/0_changed.rb"),
        delta(false, true, "db/migrate/1_a.rb"),
        delta(false, true, "lib/x.rb"),
        delta(true, false, "db/migrate/9_gone.rb"),
        delta(false, true, "db/migrate/2_b.rb"),
    ];
    assert_eq!(
        select_new_files(&deltas, "db/migrate"),
        vec![
            String::from("db/migrate/3_c.rb"),
            String::from("db/migrate/1_a.rb"),
            String::from("db/migrate/2_b.rb"),
        ]
    );
}

#[test]
fn prefix_ends_at_a_segment() {
    assert!(delta(false, true, "db/migrate/1.rb").is_new_under("db/migrate"));
    assert!(delta(false, true, "db/migrate/1.rb").is_new_under("db/migrate/"));
    assert!(delta(false, true, "db/migrate/1.rb").is_new_under("db"));
    assert!(delta(false, true, "db/migrate").is_new_under("db/migrate"));
    assert!(delta(false, true, "db/migrate/1.rb").is_new_under(""));
    assert!(!delta(false, true, "db/migrate_old/1.rb").is_new_under("db/migrate"));
    assert!(!delta(false, true, "db/migrate/1.rb").is_new_under("db/mig"));
    assert!(!delta(false, true, "db").is_new_under("db/migrate"));
    assert!(!delta(false, true, "xdb/migrate/1.rb").is_new_under("db/migrate"));
}

#[test]
fn no_new_files_is_no_error() {
    assert_eq!(resolve(&on_branch("feature", Vec::new()), "master", "db/migrate"), Ok(Vec::new()));
    let deltas = vec![delta(true, true, "db/migrate/1.rb"), delta(false, true, "README")];
    assert_eq!(resolve(&on_branch("feature", deltas), "master", "db/migrate"), Ok(Vec::new()));
}

#[test]
fn new_files_of_a_branch_are_resolved() {
    let deltas = vec![
        delta(false, true, "db/migrate/20230115143022_add_users.rb"),
        delta(false, true, "app/models/user.rb"),
        delta(true, true, "db/schema.rb"),
    ];
    assert_eq!(
        resolve(&on_branch("add-users", deltas), "master", "db/migrate"),
        Ok(vec![String::from("db/migrate/20230115143022_add_users.rb")])
    );
}

#[test]
fn branch_is_not_compared_with_itself() {
    let deltas = vec![delta(false, true, "db/migrate/1.rb")];
    assert_eq!(
        resolve(&on_branch("master", deltas), "master", "db/migrate"),
        Err(ResolveError::SelfComparison)
    );
    for comparison in [
        TreeComparison::HeadTreeUnavailable,
        TreeComparison::BaseBranchMissing,
        TreeComparison::BaseTreeUnavailable,
        TreeComparison::DiffFailed,
        TreeComparison::Deltas(Vec::new()),
    ] {
        let reading =
            RepositoryReading::Found { head: HeadState::Branch(String::from("main")), comparison };
        assert_eq!(resolve(&reading, "main", ""), Err(ResolveError::SelfComparison));
    }
    assert_eq!(
        check_head(&HeadState::Branch(String::from("master")), "master"),
        Err(ResolveError::SelfComparison)
    );
}

#[test]
fn head_must_be_a_named_branch() {
    assert_eq!(check_head(&HeadState::Detached, "master"), Err(ResolveError::NotABranch));
    assert_eq!(
        check_head(&HeadState::Unnamed, "master"),
        Err(ResolveError::UnresolvableBranchName)
    );
    assert_eq!(check_head(&HeadState::Branch(String::from("feature")), "master"), Ok(()));
    assert_eq!(check_head(&HeadState::Branch(String::from("master2")), "master"), Ok(()));
    assert_eq!(check_head(&HeadState::Branch(String::from("maste")), "master"), Ok(()));
}

#[test]
fn every_failure_has_its_error() {
    let found = |head: HeadState, comparison: TreeComparison| RepositoryReading::Found {
        head,
        comparison,
    };
    let feature = || HeadState::Branch(String::from("feature"));
    assert_eq!(
        resolve(&RepositoryReading::NotFound, "master", "db"),
        Err(ResolveError::RepositoryNotFound)
    );
    assert_eq!(
        resolve(&found(HeadState::Detached, TreeComparison::Deltas(Vec::new())), "master", "db"),
        Err(ResolveError::NotABranch)
    );
    assert_eq!(
        resolve(&found(HeadState::Unnamed, TreeComparison::Deltas(Vec::new())), "master", "db"),
        Err(ResolveError::UnresolvableBranchName)
    );
    assert_eq!(
        resolve(&found(feature(), TreeComparison::HeadTreeUnavailable), "master", "db"),
        Err(ResolveError::CommitResolutionFailed)
    );
    assert_eq!(
        resolve(&found(feature(), TreeComparison::BaseBranchMissing), "master", "db"),
        Err(ResolveError::BranchNotFound)
    );
    assert_eq!(
        resolve(&found(feature(), TreeComparison::BaseTreeUnavailable), "master", "db"),
        Err(ResolveError::CommitResolutionFailed)
    );
    assert_eq!(
        resolve(&found(feature(), TreeComparison::DiffFailed), "master", "db"),
        Err(ResolveError::DiffComputationFailed)
    );
}

#[test]
fn state_of_head_is_judged_before_the_trees() {
    let reading = RepositoryReading::Found {
        head: HeadState::Detached,
        comparison: TreeComparison::BaseBranchMissing,
    };
    assert_eq!(resolve(&reading, "master", "db"), Err(ResolveError::NotABranch));
}
