use vstd::prelude::*;

verus! {

/// Process settings.
#[derive(Debug)]
pub struct Config {
    pub credentials: Credentials,
    pub general: General,
}

/// Exchange account settings.
#[derive(Debug)]
pub struct Credentials {
    pub private_key: String,
    pub proxy_wallet: String,
}

#[derive(Debug)]
pub struct General {
    pub log_level: String,
}

} // verus!
