use engine_launcher::args::{
    ArgsError, EngineArgs, Options, DEFAULT_MEMORY_BLOCK_BUFFER_TARGET,
    DEFAULT_PERSISTENCE_THRESHOLD,
};

fn parse(args: &[&str]) -> Result<EngineArgs, ArgsError> {
    EngineArgs::parse_from(args.iter().map(|arg| arg.to_string()).collect())
}

fn is_command_line_error(parsed: Result<EngineArgs, ArgsError>) -> bool {
    matches!(parsed, Err(ArgsError::CommandLine(message)) if !message.is_empty())
}

#[test]
fn test_parse_engine_args() {
    let default_args = EngineArgs::default();
    let args = parse(&["reth"]).unwrap();
    assert_eq!(args, default_args);
}

#[test]
fn defaults_are_the_documented_ones() {
    let args = EngineArgs::default();
    assert!(!args.experimental);
    assert!(!args.legacy);
    assert_eq!(args.persistence_threshold, 2);
    assert_eq!(args.memory_block_buffer_target, 2);
    assert_eq!(args.persistence_threshold, DEFAULT_PERSISTENCE_THRESHOLD);
    assert_eq!(args.memory_block_buffer_target, DEFAULT_MEMORY_BLOCK_BUFFER_TARGET);
    assert_eq!(args.clone(), args);
}

#[test]
fn nothing_on_the_command_line_gives_the_defaults() {
    assert_eq!(parse(&[]), Ok(EngineArgs::default()));
}

#[test]
fn flags_are_read() {
    assert_eq!(
        parse(&["reth", "--engine.legacy"]),
        Ok(EngineArgs { legacy: true, ..EngineArgs::default() })
    );
    assert_eq!(
        parse(&["reth", "--engine.experimental"]),
        Ok(EngineArgs { experimental: true, ..EngineArgs::default() })
    );
}

#[test]
fn values_are_read_with_the_experimental_flag() {
    assert_eq!(
        parse(&[
            "reth",
            "--engine.experimental",
            "--engine.persistence-threshold",
            "7",
            "--engine.memory-block-buffer-target=11",
        ]),
        Ok(EngineArgs {
            experimental: true,
            legacy: false,
            persistence_threshold: 7,
            memory_block_buffer_target: 11,
        })
    );
    assert_eq!(
        parse(&[
            "reth",
            "--engine.persistence-threshold=18446744073709551615",
            "--engine.experimental",
            "--engine.legacy",
        ]),
        Ok(EngineArgs {
            experimental: true,
            legacy: true,
            persistence_threshold: u64::MAX,
            memory_block_buffer_target: DEFAULT_MEMORY_BLOCK_BUFFER_TARGET,
        })
    );
}

#[test]
fn values_require_the_experimental_flag() {
    assert_eq!(
        parse(&["reth", "--engine.persistence-threshold", "7"]),
        Err(ArgsError::RequiresExperimental)
    );
    assert_eq!(
        parse(&["reth", "--engine.legacy", "--engine.memory-block-buffer-target", "7"]),
        Err(ArgsError::RequiresExperimental)
    );
}

#[test]
fn other_command_lines_are_refused() {
    assert!(is_command_line_error(parse(&["reth", "--engine.unknown"])));
    assert!(is_command_line_error(parse(&["reth", "node"])));
    assert!(is_command_line_error(parse(&["reth", "--help"])));
    assert!(is_command_line_error(parse(&["reth", "--engine.legacy", "--engine.legacy"])));
    assert!(is_command_line_error(parse(&[
        "reth",
        "--engine.experimental",
        "--engine.persistence-threshold",
        "many",
    ])));
    assert!(is_command_line_error(parse(&[
        "reth",
        "--engine.experimental",
        "--engine.persistence-threshold",
        "18446744073709551616",
    ])));
}

#[test]
fn options_that_were_not_given_take_their_defaults() {
    let options = Options {
        experimental: true,
        legacy: false,
        persistence_threshold: None,
        memory_block_buffer_target: Some(0),
    };
    assert_eq!(
        EngineArgs::from_options(&options),
        Ok(EngineArgs {
            experimental: true,
            legacy: false,
            persistence_threshold: 2,
            memory_block_buffer_target: 0,
        })
    );
}
