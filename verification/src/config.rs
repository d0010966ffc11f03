//! Configuration: the settings the process needs, and the rules for
//! assembling them.
//!
//! Reading the environment is outside work; the settings arrive here as
//! plain optional values, and [`Config::from_settings`] decides which
//! are required, which default, and which error names a missing one.

use vstd::prelude::*;
use vstd::string::StringExecFns;

use crate::errors::CoreError;

verus! {

/// The process settings.
pub struct Config {
    pub openai_api_key: String,
    pub arbitrum_rpc_url: String,
    pub dao_contract_address: String,
    pub safe_wallet_address: String,
    pub safe_wallet_private_key: String,
    pub pg_user: String,
    pub pg_pass: String,
    pub pg_host: String,
    pub pg_db: String,
}

impl Clone for Config {
    fn clone(&self) -> (res: Self)
        ensures
            res == *self,
    {
        Config {
            openai_api_key: self.openai_api_key.clone(),
            arbitrum_rpc_url: self.arbitrum_rpc_url.clone(),
            dao_contract_address: self.dao_contract_address.clone(),
            safe_wallet_address: self.safe_wallet_address.clone(),
            safe_wallet_private_key: self.safe_wallet_private_key.clone(),
            pg_user: self.pg_user.clone(),
            pg_pass: self.pg_pass.clone(),
            pg_host: self.pg_host.clone(),
            pg_db: self.pg_db.clone(),
        }
    }
}

impl Config {
    /// Assemble the configuration from the settings as read, each
    /// `None` where the environment lacks the variable.  The first
    /// five are required: a missing one is a configuration error
    /// naming it, checked in order.  The store settings default:
    /// empty user, empty password, host `172.17.0.1`, empty database.
    pub fn from_settings(
        openai_api_key: Option<String>,
        arbitrum_rpc_url: Option<String>,
        dao_contract_address: Option<String>,
        safe_wallet_address: Option<String>,
        safe_wallet_private_key: Option<String>,
        pg_user: Option<String>,
        pg_pass: Option<String>,
        pg_host: Option<String>,
        pg_db: Option<String>,
    ) -> (r: Result<Config, CoreError>)
        ensures
            r is Ok <==> openai_api_key is Some && arbitrum_rpc_url is Some
                && dao_contract_address is Some && safe_wallet_address is Some
                && safe_wallet_private_key is Some,
            r matches Ok(c) ==> Some(c.openai_api_key) == openai_api_key && Some(
                c.arbitrum_rpc_url,
            ) == arbitrum_rpc_url && Some(c.dao_contract_address) == dao_contract_address && Some(
                c.safe_wallet_address,
            ) == safe_wallet_address && Some(c.safe_wallet_private_key) == safe_wallet_private_key,
            r matches Ok(c) ==> c.pg_user@ == match pg_user {
                Some(u) => u@,
                None => Seq::<char>::empty(),
            },
            r matches Ok(c) ==> c.pg_pass@ == match pg_pass {
                Some(p) => p@,
                None => Seq::<char>::empty(),
            },
            r matches Ok(c) ==> c.pg_host@ == match pg_host {
                Some(h) => h@,
                None => "172.17.0.1"@,
            },
            r matches Ok(c) ==> c.pg_db@ == match pg_db {
                Some(d) => d@,
                None => Seq::<char>::empty(),
            },
            openai_api_key is None ==> (r matches Err(CoreError::Configuration(m)) && m@
                == "OPENAI_API_KEY"@),
            openai_api_key is Some && arbitrum_rpc_url is None ==> (r matches Err(
                CoreError::Configuration(m),
            ) && m@ == "ARBITRUM_RPC_URL"@),
            openai_api_key is Some && arbitrum_rpc_url is Some && dao_contract_address is None
                ==> (r matches Err(CoreError::Configuration(m)) && m@ == "DAO_CONTRACT_ADDRESS"@),
            openai_api_key is Some && arbitrum_rpc_url is Some && dao_contract_address is Some
                && safe_wallet_address is None ==> (r matches Err(CoreError::Configuration(m))
                && m@ == "SAFE_WALLET_ADDRESS"@),
            openai_api_key is Some && arbitrum_rpc_url is Some && dao_contract_address is Some
                && safe_wallet_address is Some && safe_wallet_private_key is None ==> (r matches
                Err(CoreError::Configuration(m)) && m@ == "SAFE_WALLET_PRIVATE_KEY"@),
    {
        let openai_api_key = match openai_api_key {
            Some(v) => v,
            None => {
                return Err(CoreError::Configuration("OPENAI_API_KEY".to_owned()));
            },
        };
        let arbitrum_rpc_url = match arbitrum_rpc_url {
            Some(v) => v,
            None => {
                return Err(CoreError::Configuration("ARBITRUM_RPC_URL".to_owned()));
            },
        };
        let dao_contract_address = match dao_contract_address {
            Some(v) => v,
            None => {
                return Err(CoreError::Configuration("DAO_CONTRACT_ADDRESS".to_owned()));
            },
        };
        let safe_wallet_address = match safe_wallet_address {
            Some(v) => v,
            None => {
                return Err(CoreError::Configuration("SAFE_WALLET_ADDRESS".to_owned()));
            },
        };
        let safe_wallet_private_key = match safe_wallet_private_key {
            Some(v) => v,
            None => {
                return Err(CoreError::Configuration("SAFE_WALLET_PRIVATE_KEY".to_owned()));
            },
        };
        let pg_user = match pg_user {
            Some(v) => v,
            None => String::new(),
        };
        let pg_pass = match pg_pass {
            Some(v) => v,
            None => String::new(),
        };
        let pg_host = match pg_host {
            Some(v) => v,
            None => "172.17.0.1".to_owned(),
        };
        let pg_db = match pg_db {
            Some(v) => v,
            None => String::new(),
        };
        Ok(
            Config {
                openai_api_key,
                arbitrum_rpc_url,
                dao_contract_address,
                safe_wallet_address,
                safe_wallet_private_key,
                pg_user,
                pg_pass,
                pg_host,
                pg_db,
            },
        )
    }

    /// The connection string for the store: user, host, the fixed port
    /// 5432 and database, with the password included exactly when it
    /// is not empty.
    pub fn to_pg_connection_string(&self) -> (s: String)
        ensures
            self.pg_pass@.len() == 0 ==> s@ == "postgres://"@ + self.pg_user@ + "@"@
                + self.pg_host@ + ":5432/"@ + self.pg_db@,
            self.pg_pass@.len() > 0 ==> s@ == "postgres://"@ + self.pg_user@ + ":"@
                + self.pg_pass@ + "@"@ + self.pg_host@ + ":5432/"@ + self.pg_db@,
    {
        let mut s = "postgres://".to_owned();
        s.append(self.pg_user.as_str());
        if !self.pg_pass.as_str().is_empty() {
            s.append(":");
            s.append(self.pg_pass.as_str());
        }
        s.append("@");
        s.append(self.pg_host.as_str());
        s.append(":5432/");
        s.append(self.pg_db.as_str());
        s
    }
}

} // verus!
