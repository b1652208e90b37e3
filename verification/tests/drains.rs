use frame_host::drains::{Context, ContextError, SlogManager};

#[test]
fn context_targets_all_drains_then_named_ones() {
    let mut mgr: SlogManager<&str> = SlogManager::new();
    mgr.add_all_drain("term");
    mgr.add("net".to_string(), "net-drain");
    mgr.add("file".to_string(), "file-drain");
    let mut ctx = Context::new(&mgr);
    ctx.add("file".to_string());
    ctx.add("net".to_string());
    ctx.add("file".to_string());
    let targets: Vec<&str> = {
        let (t, complete) = ctx.log_targets();
        assert!(complete);
        t.into_iter().copied().collect()
    };
    assert_eq!(targets, vec!["term", "file-drain", "net-drain", "file-drain"]);
}

#[test]
fn add_replaces_a_named_drain() {
    let mut mgr: SlogManager<u32> = SlogManager::new();
    mgr.add("a".to_string(), 1);
    mgr.add("a".to_string(), 2);
    let mut ctx = Context::new(&mgr);
    ctx.add("a".to_string());
    let targets: Vec<u32> = {
        let (t, complete) = ctx.log_targets();
        assert!(complete);
        t.into_iter().copied().collect()
    };
    assert_eq!(targets, vec![2]);
}

#[test]
fn empty_context_targets_only_all_drains() {
    let mut mgr: SlogManager<u32> = SlogManager::new();
    mgr.add_all_drain(7);
    mgr.add_all_drain(8);
    let ctx = Context::new(&mgr);
    let targets: Vec<u32> = {
        let (t, complete) = ctx.log_targets();
        assert!(complete);
        t.into_iter().copied().collect()
    };
    assert_eq!(targets, vec![7, 8]);
}

#[test]
fn context_error_carries_its_description() {
    let e = ContextError::Fatal("disk full".to_string());
    assert_eq!(format!("{:?}", e), "Fatal(\"disk full\")");
}

#[test]
fn targets_stop_at_the_first_name_without_a_drain() {
    let mut mgr: SlogManager<u32> = SlogManager::new();
    mgr.add_all_drain(9);
    mgr.add("a".to_string(), 1);
    mgr.add("c".to_string(), 3);
    let mut ctx = Context::new(&mgr);
    ctx.add("a".to_string());
    ctx.add("b".to_string());
    ctx.add("c".to_string());
    let (t, complete) = ctx.log_targets();
    assert!(!complete);
    let t: Vec<u32> = t.into_iter().copied().collect();
    assert_eq!(t, vec![9, 1]);
}
