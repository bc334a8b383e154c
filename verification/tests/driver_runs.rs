use keyhouse_sync::checkpoint::CheckpointStore;
use keyhouse_sync::driver::{Action, Driver, Event, FetchError, Outcome, TransportError};
use keyhouse_sync::fetcher::DecodeError;

fn step(d: Driver, e: Event) -> (Driver, Action) {
    d.step(e)
}

#[test]
fn full_resync_when_no_checkpoint_exists() {
    let d = Driver::new("aws".to_string());
    let (d, a) = step(d, Event::CheckpointLoaded { value: None });
    assert!(matches!(a, Action::ListProviders));

    let (d, a) = step(d, Event::ProvidersListed { result: Ok(vec!["aws".to_string()]) });
    match &a {
        Action::ListProjects { provider } => assert_eq!(provider, "aws"),
        other => panic!("expected project listing, got {:?}", other),
    }

    let (d, a) = step(d, Event::ProjectsListed { result: Ok(vec!["p1".to_string()]) });
    match &a {
        Action::ListHashes { provider, project } => {
            assert_eq!(provider, "aws");
            assert_eq!(project, "p1");
        },
        other => panic!("expected hash listing, got {:?}", other),
    }

    let (d, a) = step(d, Event::HashesListed { result: Ok(Some(vec!["h1".to_string()])) });
    match &a {
        Action::FetchContent { hash, refname } => {
            assert_eq!(hash, "h1");
            assert_eq!(refname, "build");
        },
        other => panic!("expected content fetch, got {:?}", other),
    }

    let (d, a) = step(d, Event::ContentFetched { result: Ok(Some("alice".to_string())) });
    match &a {
        Action::ApplyAddToGroup { user, group } => {
            assert_eq!(user, "alice");
            assert_eq!(group, "p1");
        },
        other => panic!("expected add-to-group, got {:?}", other),
    }

    let (d, a) = step(d, Event::Applied { ok: true });
    assert!(matches!(a, Action::FetchLatestCommit));

    let (d, a) = step(d, Event::LatestCommitFetched { result: Ok("c9".to_string()) });
    match &a {
        Action::SaveCheckpoint { commit } => assert_eq!(commit, "c9"),
        other => panic!("expected checkpoint save, got {:?}", other),
    }

    let (_d, a) = step(d, Event::CheckpointSaved { ok: true });
    assert!(matches!(a, Action::Finish { outcome: Outcome::Success }));
}

#[test]
fn incremental_add_persists_head_even_when_apply_fails() {
    let d = Driver::new("aws".to_string());
    let (d, a) = step(d, Event::CheckpointLoaded { value: Some("abc123".to_string()) });
    assert!(matches!(a, Action::FetchHead));

    let (d, a) = step(d, Event::HeadFetched { result: Ok("h999".to_string()) });
    match &a {
        Action::FetchDiff { base, head } => {
            assert_eq!(base, "abc123");
            assert_eq!(head, "h999");
        },
        other => panic!("expected diff fetch, got {:?}", other),
    }

    let diff = "diff --git a/access/aws/p1/h1 b/access/aws/p1/h1\nnew file mode 100644\n";
    let (d, a) = step(d, Event::DiffFetched { result: Ok(diff.to_string()) });
    match &a {
        Action::FetchContent { hash, refname } => {
            assert_eq!(hash, "h1");
            assert_eq!(refname, "build");
        },
        other => panic!("expected content fetch, got {:?}", other),
    }

    let (d, a) = step(d, Event::ContentFetched { result: Ok(Some("bob".to_string())) });
    match &a {
        Action::ApplyAddToGroup { user, group } => {
            assert_eq!(user, "bob");
            assert_eq!(group, "p1");
        },
        other => panic!("expected add-to-group, got {:?}", other),
    }

    let (d, a) = step(d, Event::Applied { ok: false });
    match &a {
        Action::SaveCheckpoint { commit } => assert_eq!(commit, "h999"),
        other => panic!("expected checkpoint save, got {:?}", other),
    }

    let (_d, a) = step(d, Event::CheckpointSaved { ok: true });
    assert!(matches!(a, Action::Finish { outcome: Outcome::Success }));
}

#[test]
fn foreign_provider_skips_identity_calls_but_advances_checkpoint() {
    let d = Driver::new("aws".to_string());
    let (d, _a) = step(d, Event::CheckpointLoaded { value: Some("abc123".to_string()) });
    let (d, _a) = step(d, Event::HeadFetched { result: Ok("h999".to_string()) });

    let diff = "diff --git a/access/gcp/p1/h1 b/access/gcp/p1/h1\nnew file mode 100644\n";
    let (d, a) = step(d, Event::DiffFetched { result: Ok(diff.to_string()) });
    match &a {
        Action::SaveCheckpoint { commit } => assert_eq!(commit, "h999"),
        other => panic!("expected checkpoint save with no fetch or identity call, got {:?}", other),
    }

    let (_d, a) = step(d, Event::CheckpointSaved { ok: true });
    assert!(matches!(a, Action::Finish { outcome: Outcome::Success }));
}

#[test]
fn deleted_record_reads_base_and_removes_from_group() {
    let d = Driver::new("aws".to_string());
    let (d, _a) = step(d, Event::CheckpointLoaded { value: Some("abc123".to_string()) });
    let (d, _a) = step(d, Event::HeadFetched { result: Ok("h999".to_string()) });

    let diff = "diff --git a/access/aws/p1/h1 b/access/aws/p1/h1\ndeleted file mode 100644\n";
    let (d, a) = step(d, Event::DiffFetched { result: Ok(diff.to_string()) });
    match &a {
        Action::FetchContent { hash, refname } => {
            assert_eq!(hash, "h1");
            assert_eq!(refname, "abc123");
        },
        other => panic!("expected content fetch at base, got {:?}", other),
    }

    let (_d, a) = step(d, Event::ContentFetched { result: Ok(Some("dave".to_string())) });
    match &a {
        Action::ApplyRemoveFromGroup { user, group } => {
            assert_eq!(user, "dave");
            assert_eq!(group, "p1");
        },
        other => panic!("expected remove-from-group, got {:?}", other),
    }
}

#[test]
fn missing_content_skips_the_record() {
    let d = Driver::new("aws".to_string());
    let (d, _a) = step(d, Event::CheckpointLoaded { value: Some("abc123".to_string()) });
    let (d, _a) = step(d, Event::HeadFetched { result: Ok("h999".to_string()) });
    let diff = "diff --git a/access/aws/p1/h1 b/access/aws/p1/h1\nnew file mode 100644\n";
    let (d, _a) = step(d, Event::DiffFetched { result: Ok(diff.to_string()) });
    let (_d, a) = step(d, Event::ContentFetched { result: Ok(None) });
    match &a {
        Action::SaveCheckpoint { commit } => assert_eq!(commit, "h999"),
        other => panic!("expected checkpoint save, got {:?}", other),
    }
}

#[test]
fn blank_checkpoint_triggers_full_resync() {
    let d = Driver::new("aws".to_string());
    let (_d, a) = step(d, Event::CheckpointLoaded { value: Some("  \n".to_string()) });
    assert!(matches!(a, Action::ListProviders));
}

#[test]
fn transport_failure_fetching_diff_leaves_checkpoint_unchanged() {
    let mut store = CheckpointStore::new();
    store.save("abc123".to_string());

    let d = Driver::new("aws".to_string());
    let (d, _a) = step(d, Event::CheckpointLoaded { value: store.load() });
    let (d, _a) = step(d, Event::HeadFetched { result: Ok("h999".to_string()) });
    let (_d, a) = step(d, Event::DiffFetched { result: Err(TransportError) });
    match a {
        Action::Finish { outcome } => assert_eq!(outcome, Outcome::TransportFailure),
        other => panic!("expected failed finish, got {:?}", other),
    }
    assert_eq!(store.load(), Some("abc123".to_string()));
}

#[test]
fn transport_failure_fetching_head_fails_the_run() {
    let d = Driver::new("aws".to_string());
    let (d, _a) = step(d, Event::CheckpointLoaded { value: Some("abc123".to_string()) });
    let (_d, a) = step(d, Event::HeadFetched { result: Err(TransportError) });
    assert!(matches!(a, Action::Finish { outcome: Outcome::TransportFailure }));
}

#[test]
fn empty_diff_still_advances_checkpoint() {
    let d = Driver::new("aws".to_string());
    let (d, _a) = step(d, Event::CheckpointLoaded { value: Some("abc123".to_string()) });
    let (d, _a) = step(d, Event::HeadFetched { result: Ok("h999".to_string()) });
    let (d, a) = step(d, Event::DiffFetched { result: Ok("nothing relevant\n".to_string()) });
    match &a {
        Action::SaveCheckpoint { commit } => assert_eq!(commit, "h999"),
        other => panic!("expected checkpoint save, got {:?}", other),
    }
    let (_d, a) = step(d, Event::CheckpointSaved { ok: true });
    assert!(matches!(a, Action::Finish { outcome: Outcome::Success }));
}

#[test]
fn failed_save_reports_store_failure() {
    let d = Driver::new("aws".to_string());
    let (d, _a) = step(d, Event::CheckpointLoaded { value: Some("abc123".to_string()) });
    let (d, _a) = step(d, Event::HeadFetched { result: Ok("h999".to_string()) });
    let (d, _a) = step(d, Event::DiffFetched { result: Ok(String::new()) });
    let (_d, a) = step(d, Event::CheckpointSaved { ok: false });
    assert!(matches!(a, Action::Finish { outcome: Outcome::StoreFailure }));
}

#[test]
fn user_deletion_record_deletes_user() {
    // names records carry an empty provider, so only a host whose identity
    // compares equal to the empty string reaches the deletion.
    let d = Driver::new("".to_string());
    let (d, _a) = step(d, Event::CheckpointLoaded { value: Some("abc123".to_string()) });
    let (d, _a) = step(d, Event::HeadFetched { result: Ok("h999".to_string()) });
    let diff = "diff --git a/names/h7 b/names/h7\ndeleted file mode 100644\n";
    let (d, a) = step(d, Event::DiffFetched { result: Ok(diff.to_string()) });
    match &a {
        Action::FetchContent { hash, refname } => {
            assert_eq!(hash, "h7");
            assert_eq!(refname, "abc123");
        },
        other => panic!("expected content fetch at base, got {:?}", other),
    }
    let (_d, a) = step(d, Event::ContentFetched { result: Ok(Some("erin".to_string())) });
    match &a {
        Action::ApplyDeleteUser { user } => assert_eq!(user, "erin"),
        other => panic!("expected user deletion, got {:?}", other),
    }
}

#[test]
fn full_resync_walks_providers_projects_and_hashes_in_order() {
    let d = Driver::new("any".to_string());
    let (d, _a) = step(d, Event::CheckpointLoaded { value: None });
    let (d, a) = step(
        d,
        Event::ProvidersListed { result: Ok(vec!["aws".to_string(), "gcp".to_string()]) },
    );
    match &a {
        Action::ListProjects { provider } => assert_eq!(provider, "aws"),
        other => panic!("expected project listing for aws, got {:?}", other),
    }
    let (d, a) = step(d, Event::ProjectsListed { result: Ok(vec!["p1".to_string()]) });
    match &a {
        Action::ListHashes { provider, project } => {
            assert_eq!(provider, "aws");
            assert_eq!(project, "p1");
        },
        other => panic!("expected hash listing, got {:?}", other),
    }
    // a non-success listing response skips the project, not the run
    let (d, a) = step(d, Event::HashesListed { result: Ok(None) });
    match &a {
        Action::ListProjects { provider } => assert_eq!(provider, "gcp"),
        other => panic!("expected project listing for gcp, got {:?}", other),
    }
    let (d, a) = step(d, Event::ProjectsListed { result: Ok(vec!["p2".to_string()]) });
    match &a {
        Action::ListHashes { provider, project } => {
            assert_eq!(provider, "gcp");
            assert_eq!(project, "p2");
        },
        other => panic!("expected hash listing, got {:?}", other),
    }
    let (d, a) = step(
        d,
        Event::HashesListed { result: Ok(Some(vec!["h1".to_string(), "h2".to_string()])) },
    );
    match &a {
        Action::FetchContent { hash, .. } => assert_eq!(hash, "h1"),
        other => panic!("expected content fetch for h1, got {:?}", other),
    }
    let (d, a) = step(d, Event::ContentFetched { result: Ok(None) });
    match &a {
        Action::FetchContent { hash, .. } => assert_eq!(hash, "h2"),
        other => panic!("expected content fetch for h2, got {:?}", other),
    }
    let (d, a) = step(d, Event::ContentFetched { result: Ok(Some("frank".to_string())) });
    match &a {
        Action::ApplyAddToGroup { user, group } => {
            assert_eq!(user, "frank");
            assert_eq!(group, "p2");
        },
        other => panic!("expected add-to-group, got {:?}", other),
    }
    let (_d, a) = step(d, Event::Applied { ok: true });
    assert!(matches!(a, Action::FetchLatestCommit));
}

#[test]
fn failed_provider_listing_fails_the_run_without_saving() {
    let d = Driver::new("aws".to_string());
    let (d, _a) = step(d, Event::CheckpointLoaded { value: None });
    let (_d, a) = step(d, Event::ProvidersListed { result: Err(TransportError) });
    assert!(matches!(a, Action::Finish { outcome: Outcome::TransportFailure }));
}

#[test]
fn decode_failure_fails_the_run() {
    // incremental path
    let d = Driver::new("aws".to_string());
    let (d, _a) = step(d, Event::CheckpointLoaded { value: Some("abc123".to_string()) });
    let (d, _a) = step(d, Event::HeadFetched { result: Ok("h999".to_string()) });
    let diff = "diff --git a/access/aws/p1/h1 b/access/aws/p1/h1\nnew file mode 100644\n";
    let (d, _a) = step(d, Event::DiffFetched { result: Ok(diff.to_string()) });
    let (_d, a) = step(
        d,
        Event::ContentFetched { result: Err(FetchError::Decode(DecodeError::BadBase64)) },
    );
    assert!(matches!(a, Action::Finish { outcome: Outcome::DecodeFailure }));

    // full-resync path
    let d = Driver::new("aws".to_string());
    let (d, _a) = step(d, Event::CheckpointLoaded { value: None });
    let (d, _a) = step(d, Event::ProvidersListed { result: Ok(vec!["aws".to_string()]) });
    let (d, _a) = step(d, Event::ProjectsListed { result: Ok(vec!["p1".to_string()]) });
    let (d, _a) = step(d, Event::HashesListed { result: Ok(Some(vec!["h1".to_string()])) });
    let (_d, a) = step(
        d,
        Event::ContentFetched { result: Err(FetchError::Decode(DecodeError::BadUtf8)) },
    );
    assert!(matches!(a, Action::Finish { outcome: Outcome::DecodeFailure }));
}
