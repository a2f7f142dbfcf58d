use engine_launcher::etherscan::{
    chain_etherscan_client, etherscan_client, etherscan_key_variable, EtherscanClient,
    EtherscanError,
};

fn some(text: &str) -> Option<String> {
    Some(text.to_string())
}

#[test]
fn etherscan_is_off_without_the_setting() {
    assert_eq!(etherscan_client(None, None, None, "dev".to_string()), Ok(None));
    assert_eq!(chain_etherscan_client(None, 1), Ok(None));
}

#[test]
fn a_custom_address_comes_first() {
    let client = etherscan_client(
        Some(some("https://custom")),
        some("https://known"),
        some("key"),
        "mainnet".to_string(),
    );
    assert_eq!(
        client,
        Ok(Some(EtherscanClient { url: "https://custom".to_string(), api_key: "key".to_string() }))
    );
}

#[test]
fn the_known_address_is_used_otherwise() {
    let client =
        etherscan_client(Some(None), some("https://known"), some("key"), "mainnet".to_string());
    assert_eq!(
        client,
        Ok(Some(EtherscanClient { url: "https://known".to_string(), api_key: "key".to_string() }))
    );
}

#[test]
fn an_unknown_address_is_found_before_a_missing_key() {
    let error = etherscan_client(Some(None), None, None, "dev".to_string()).unwrap_err();
    assert_eq!(error, EtherscanError::UnknownUrl("dev".to_string()));
    assert_eq!(error.message(), "failed to get etherscan url for chain: dev");
}

#[test]
fn a_missing_key_is_an_error() {
    let error =
        etherscan_client(Some(some("https://custom")), None, None, "dev".to_string()).unwrap_err();
    assert_eq!(error, EtherscanError::MissingApiKey("dev".to_string()));
    assert_eq!(
        error.message(),
        "etherscan api key not found for rpc consensus client for chain: dev"
    );
}

#[test]
fn no_address_is_known_for_a_development_chain() {
    assert_eq!(
        chain_etherscan_client(Some(None), 1337),
        Err(EtherscanError::UnknownUrl("dev".to_string()))
    );
}

#[test]
fn a_chain_without_a_name_goes_by_its_id() {
    assert_eq!(
        chain_etherscan_client(Some(None), 987_654_321_123),
        Err(EtherscanError::UnknownUrl("987654321123".to_string()))
    );
    assert_eq!(
        chain_etherscan_client(Some(some("https://custom")), 987_654_321_123),
        Err(EtherscanError::MissingApiKey("987654321123".to_string()))
    );
}

#[test]
fn the_address_of_mainnet_is_known() {
    match chain_etherscan_client(Some(None), 1) {
        Ok(Some(client)) => assert_eq!(client.url, "https://api.etherscan.io/api"),
        other => assert_eq!(other, Err(EtherscanError::MissingApiKey("mainnet".to_string()))),
    }
}

#[test]
fn the_key_comes_from_the_variable_of_the_chain() {
    assert_eq!(etherscan_key_variable(1), some("ETHERSCAN_API_KEY"));
    assert_eq!(etherscan_key_variable(43114), some("SNOWTRACE_API_KEY"));
    assert_eq!(etherscan_key_variable(31337), None);
    assert_eq!(etherscan_key_variable(987_654_321_123), None);
}

#[test]
fn there_is_no_client_for_a_chain_without_a_variable() {
    assert_eq!(
        chain_etherscan_client(Some(some("https://custom")), 31337),
        Err(EtherscanError::MissingApiKey("anvil-hardhat".to_string()))
    );
}
