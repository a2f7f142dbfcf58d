//! Using Etherscan as the consensus client.
use vstd::prelude::*;
use vstd::string::StringExecFns;

verus! {

/// How to reach Etherscan.
#[derive(Debug, PartialEq, Eq)]
pub struct EtherscanClient {
    pub url: String,
    pub api_key: String,
}

/// Why Etherscan cannot be used. Each holds the name of the chain.
#[derive(Debug, PartialEq, Eq)]
pub enum EtherscanError {
    /// No address was given, and none is known for the chain.
    UnknownUrl(String),
    /// There is no key for the chain.
    MissingApiKey(String),
}

/// The model of [`EtherscanError`].
pub enum EtherscanErrorView {
    UnknownUrl(Seq<char>),
    MissingApiKey(Seq<char>),
}

impl View for EtherscanError {
    type V = EtherscanErrorView;

    open spec fn view(&self) -> EtherscanErrorView {
        match *self {
            EtherscanError::UnknownUrl(chain) => EtherscanErrorView::UnknownUrl(chain@),
            EtherscanError::MissingApiKey(chain) => EtherscanErrorView::MissingApiKey(chain@),
        }
    }
}

impl EtherscanError {
    /// What there is to tell the user.
    pub fn message(&self) -> (message: String)
        ensures
            message@ == (match self@ {
                EtherscanErrorView::UnknownUrl(chain) => {
                    "failed to get etherscan url for chain: "@ + chain
                },
                EtherscanErrorView::MissingApiKey(chain) => {
                    "etherscan api key not found for rpc consensus client for chain: "@ + chain
                },
            }),
            *self matches EtherscanError::UnknownUrl(chain) ==> message@
                == "failed to get etherscan url for chain: "@ + chain@,
            *self matches EtherscanError::MissingApiKey(chain) ==> message@
                == "etherscan api key not found for rpc consensus client for chain: "@ + chain@,
    {
        match self {
            EtherscanError::UnknownUrl(chain) => {
                "failed to get etherscan url for chain: ".to_owned().concat(chain.as_str())
            },
            EtherscanError::MissingApiKey(chain) => {
                "etherscan api key not found for rpc consensus client for chain: ".to_owned().concat(
                    chain.as_str(),
                )
            },
        }
    }
}

/// The characters of a string that may be absent.
pub open spec fn string_view(string: Option<String>) -> Option<Seq<char>> {
    match string {
        Some(string) => Some(string@),
        None => None,
    }
}

/// The characters of the setting: `None` where Etherscan is not used,
/// `Some(None)` where it is used at the address known for the chain.
pub open spec fn setting_view(setting: Option<Option<String>>) -> Option<Option<Seq<char>>> {
    match setting {
        Some(custom) => Some(string_view(custom)),
        None => None,
    }
}

/// The model of a client or an error.
pub open spec fn client_view(
    client: Result<Option<EtherscanClient>, EtherscanError>,
) -> Result<Option<(Seq<char>, Seq<char>)>, EtherscanErrorView> {
    match client {
        Ok(Some(client)) => Ok(Some((client.url@, client.api_key@))),
        Ok(None) => Ok(None),
        Err(error) => Err(error@),
    }
}

/// How Etherscan is reached, as address and key. There is no client where the
/// setting is off. An address in the setting comes before the one that is
/// known for the chain, and an unknown address is found before a missing key.
pub open spec fn resolved(
    setting: Option<Option<Seq<char>>>,
    known_url: Option<Seq<char>>,
    api_key: Option<Seq<char>>,
    chain: Seq<char>,
) -> Result<Option<(Seq<char>, Seq<char>)>, EtherscanErrorView> {
    match setting {
        None => Ok(None),
        Some(custom) => {
            let url = if custom is Some {
                custom
            } else {
                known_url
            };
            match (url, api_key) {
                (None, _) => Err(EtherscanErrorView::UnknownUrl(chain)),
                (Some(_), None) => Err(EtherscanErrorView::MissingApiKey(chain)),
                (Some(url), Some(api_key)) => Ok(Some((url, api_key))),
            }
        },
    }
}

/// How Etherscan is reached.
pub fn etherscan_client(
    setting: Option<Option<String>>,
    known_url: Option<String>,
    api_key: Option<String>,
    chain: String,
) -> (client: Result<Option<EtherscanClient>, EtherscanError>)
    ensures
        client_view(client) == resolved(
            setting_view(setting),
            string_view(known_url),
            string_view(api_key),
            chain@,
        ),
{
    let custom = match setting {
        Some(custom) => custom,
        None => return Ok(None),
    };
    let url = match custom {
        Some(url) => url,
        None => match known_url {
            Some(url) => url,
            None => return Err(EtherscanError::UnknownUrl(chain)),
        },
    };
    match api_key {
        Some(api_key) => Ok(Some(EtherscanClient { url, api_key })),
        None => Err(EtherscanError::MissingApiKey(chain)),
    }
}

/// Whatever the setting, the known address, the key and the chain: there is no
/// client exactly where the setting is off; the address is unknown exactly
/// where none is given and none is known; the key is missing exactly where
/// there is an address and no key; and otherwise the client has the key, and
/// the address that is given or else the one that is known. Errors name the
/// chain.
pub proof fn law_client_has_the_given_address_and_key(
    setting: Option<Option<String>>,
    known_url: Option<String>,
    api_key: Option<String>,
    chain: String,
    client: Result<Option<EtherscanClient>, EtherscanError>,
)
    requires
        client_view(client) == resolved(
            setting_view(setting),
            string_view(known_url),
            string_view(api_key),
            chain@,
        ),
    ensures
        setting is None <==> (client matches Ok(None)),
        (setting == Some(None::<String>) && known_url is None) <==> (client matches Err(
            EtherscanError::UnknownUrl(_),
        )),
        ((setting matches Some(Some(_))) || (setting == Some(None::<String>) && known_url is Some))
            && api_key is None <==> (client matches Err(EtherscanError::MissingApiKey(_))),
        client matches Err(EtherscanError::UnknownUrl(name)) ==> name@ == chain@,
        client matches Err(EtherscanError::MissingApiKey(name)) ==> name@ == chain@,
        client matches Ok(Some(found)) ==> api_key is Some && found.api_key@ == api_key->0@,
        client matches Ok(Some(found)) ==> (setting matches Some(Some(url)) ==> found.url@ == url@),
        client matches Ok(Some(found)) ==> (setting == Some(None::<String>) ==> known_url is Some
            && found.url@ == known_url->0@),
{
}

/// Where the environment gives a key for the chain, and an address is given or
/// known, there is a client with exactly that key and that address. Where it
/// gives none, there is no client.
pub proof fn law_key_of_the_environment_is_used(
    setting: Option<Option<String>>,
    chain_id: u64,
    api_key: Option<String>,
    client: Result<Option<EtherscanClient>, EtherscanError>,
)
    requires
        environment_gives(chain_id, api_key),
        client_view(client) == resolved(
            setting_view(setting),
            known_etherscan_url(chain_id),
            string_view(api_key),
            chain_name(chain_id),
        ),
    ensures
        api_key is Some ==> key_variable(chain_id) is Some,
        api_key matches Some(key) ==> (setting matches Some(Some(url)) ==> (client matches Ok(
            Some(found),
        ) && found.url@ == url@ && found.api_key@ == key@)),
        api_key matches Some(key) ==> (setting == Some(None::<String>) ==> (known_etherscan_url(
            chain_id,
        ) matches Some(url) ==> (client matches Ok(Some(found)) && found.url@ == url
            && found.api_key@ == key@))),
        api_key is None ==> !(client matches Ok(Some(_))),
        setting is None <==> (client matches Ok(None)),
        (setting == Some(None::<String>) && known_etherscan_url(chain_id) is None) <==> (
        client matches Err(EtherscanError::UnknownUrl(_))),
        client matches Err(EtherscanError::UnknownUrl(name)) ==> name@ == chain_name(chain_id),
        client matches Err(EtherscanError::MissingApiKey(name)) ==> name@ == chain_name(chain_id),
{
}

/// What the environment gives for a chain is what the call that asks it for
/// that chain may return, and nothing else.
proof fn lemma_environment_is_asked(chain_id: u64, api_key: Option<String>)
    ensures
        environment_gives(chain_id, api_key) == call_ensures(
            chain_etherscan_api_key,
            (chain_id,),
            api_key,
        ),
{
}

/// The models of strings hold their characters.
pub proof fn law_string_views(string: Option<String>, setting: Option<Option<String>>)
    ensures
        string_view(string) is Some <==> string is Some,
        string matches Some(text) ==> string_view(string) == Some(text@),
        setting is None <==> setting_view(setting) is None,
        setting matches Some(Some(text)) ==> setting_view(setting) == Some(Some(text@)),
        setting == Some(None::<String>) <==> setting_view(setting) == Some(None::<Seq<char>>),
{
}

/// The address of the Etherscan API that is known for a chain.
pub uninterp spec fn known_etherscan_url(chain_id: u64) -> Option<Seq<char>>;

/// The name of a chain.
pub uninterp spec fn chain_name(chain_id: u64) -> Seq<char>;

/// The name of the environment variable that holds the key for a chain.
pub uninterp spec fn key_variable(chain_id: u64) -> Option<Seq<char>>;

/// Calls `alloy_chains::Chain::etherscan_urls` and picks the address of the
/// API. The contract claims that it is settled by the chain's id: the crate
/// holds a table of the chains it knows.
#[verifier::external_body]
fn chain_etherscan_url(chain_id: u64) -> (url: Option<String>)
    ensures
        string_view(url) == known_etherscan_url(chain_id),
{
    alloy_chains::Chain::from_id(chain_id).etherscan_urls().map(|urls| urls.0.to_string())
}

/// Formats an `alloy_chains::Chain`. The contract claims that the text is
/// settled by the chain's id: it is the name in the crate's table, or the id.
#[verifier::external_body]
fn chain_to_string(chain_id: u64) -> (name: String)
    ensures
        name@ == chain_name(chain_id),
{
    alloy_chains::Chain::from_id(chain_id).to_string()
}

/// Calls `alloy_chains::Chain::etherscan_api_key_name`. The contract claims
/// that the variable's name is settled by the chain's id: the crate holds a
/// table of the chains it knows.
#[verifier::external_body]
fn chain_key_variable(chain_id: u64) -> (name: Option<String>)
    ensures
        string_view(name) == key_variable(chain_id),
{
    alloy_chains::Chain::from_id(chain_id).etherscan_api_key_name().map(|name| name.to_string())
}

/// Calls `alloy_chains::Chain::etherscan_api_key`, which reads the environment
/// variable of that name. The contract claims that there is a key only for a
/// chain that has such a variable. Which key it is, and whether there is one,
/// is for the environment to say.
#[verifier::external_body]
fn chain_etherscan_api_key(chain_id: u64) -> (api_key: Option<String>)
    ensures
        api_key is Some ==> key_variable(chain_id) is Some,
{
    alloy_chains::Chain::from_id(chain_id).etherscan_api_key()
}

/// The environment variable that holds the key for the chain of this id. There
/// is no client for a chain that has none.
pub fn etherscan_key_variable(chain_id: u64) -> (name: Option<String>)
    ensures
        string_view(name) == key_variable(chain_id),
{
    chain_key_variable(chain_id)
}

/// `api_key` is what asking the environment for the key of this chain may give
/// back, as the only call that asks it shows.
pub closed spec fn environment_gives(chain_id: u64, api_key: Option<String>) -> bool {
    call_ensures(chain_etherscan_api_key, (chain_id,), api_key)
}

/// What came back of one call of `read` with the id of a chain.
fn read_once<F: Fn(u64) -> Option<String>>(read: F, chain_id: u64) -> (api_key: Option<String>)
    requires
        call_requires(read, (chain_id,)),
    ensures
        call_ensures(read, (chain_id,), api_key),
{
    read(chain_id)
}

/// How Etherscan is reached for the chain of this id, with the key that the
/// environment holds for it.
pub fn chain_etherscan_client(setting: Option<Option<String>>, chain_id: u64) -> (client: Result<
    Option<EtherscanClient>,
    EtherscanError,
>)
    ensures
        exists|api_key: Option<String>|
            {
                &&& #[trigger] environment_gives(chain_id, api_key)
                &&& api_key is Some ==> key_variable(chain_id) is Some
                &&& client_view(client) == resolved(
                    setting_view(setting),
                    known_etherscan_url(chain_id),
                    string_view(api_key),
                    chain_name(chain_id),
                )
            },
{
    let known_url = chain_etherscan_url(chain_id);
    let api_key = read_once(chain_etherscan_api_key, chain_id);
    assert(environment_gives(chain_id, api_key));
    let chain = chain_to_string(chain_id);
    etherscan_client(setting, known_url, api_key, chain)
}

} // verus!
