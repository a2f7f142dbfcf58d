use engine_launcher::launcher::{
    canon_state_channel_capacity, pipeline_max_block, watches_consensus_layer,
    EngineNodeLauncher, LaunchContext,
};

#[test]
fn a_launcher_keeps_what_it_is_given() {
    let launcher = EngineNodeLauncher::new("executor", "/data", 17);
    assert_eq!(launcher.ctx, LaunchContext { task_executor: "executor", data_dir: "/data" });
    assert_eq!(launcher.engine_tree_config, 17);
}

#[test]
fn the_channel_holds_two_notifications_a_block() {
    assert_eq!(canon_state_channel_capacity(64), 128);
    assert_eq!(canon_state_channel_capacity(0), 0);
}

#[test]
fn the_pipeline_stops_at_a_fixed_block() {
    assert_eq!(pipeline_max_block(None), Some(10_000));
    assert_eq!(pipeline_max_block(Some(5)), Some(10_000));
}

#[test]
fn the_consensus_layer_is_watched_on_live_chains() {
    assert!(watches_consensus_layer(&None, false));
    assert!(!watches_consensus_layer(&None, true));
    assert!(!watches_consensus_layer(&Some([1; 32]), false));
    assert!(!watches_consensus_layer(&Some([1; 32]), true));
}
