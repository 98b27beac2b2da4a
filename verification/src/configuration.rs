use crate::text::{decimal, decimal_string};
use vstd::prelude::*;

verus! {

/// Everything the application is configured with.
#[derive(Debug, Clone)]
pub struct Settings {
    pub application: ApplicationSettings,
    pub database: DatabaseSettings,
}

/// How to reach the database.
#[derive(Debug, Clone)]
pub struct DatabaseSettings {
    pub username: String,
    pub password: String,
    pub port: u16,
    pub host: String,
    pub database_name: String,
}

/// Where the application listens.
#[derive(Debug, Clone)]
pub struct ApplicationSettings {
    pub host: String,
    pub port: u16,
}

impl DatabaseSettings {
    /// The address of the database server, without a database:
    /// `postgres://` user `:` password `@` host `:` port.
    pub open spec fn server_address(self) -> Seq<char> {
        "postgres://"@ + self.username@ + ":"@ + self.password@ + "@"@ + self.host@ + ":"@
            + decimal(self.port as nat)
    }

    /// The address of the database: the server's address, `/`, and the
    /// database's name.
    pub open spec fn database_address(self) -> Seq<char> {
        self.server_address() + "/"@ + self.database_name@
    }

    /// The address of the database server, without a database.
    pub fn get_connection_string_without_db_name(&self) -> (address: String)
        ensures
            address@ == self.server_address(),
    {
        let mut address = "postgres://".to_owned();
        address.append(self.username.as_str());
        address.append(":");
        address.append(self.password.as_str());
        address.append("@");
        address.append(self.host.as_str());
        address.append(":");
        address.append(decimal_string(self.port).as_str());
        address
    }

    /// The address of the database.
    pub fn get_connection_string(&self) -> (address: String)
        ensures
            address@ == self.database_address(),
    {
        let mut address = self.get_connection_string_without_db_name();
        address.append("/");
        address.append(self.database_name.as_str());
        address
    }
}

/// The runtime environment the application is deployed in.
#[derive(Debug, Clone, Copy, PartialEq, Eq, Structural)]
pub enum Environment {
    Local,
    Production,
}

/// `text` in lower case, as `str::to_lowercase` gives it.
pub uninterp spec fn lowercase(text: Seq<char>) -> Seq<char>;

/// Calls `str::to_lowercase`. Trusted: the result depends on the text alone.
#[verifier::external_body]
fn to_lowercase(text: &str) -> (lowered: String)
    ensures
        lowered@ == lowercase(text@),
{
    text.to_lowercase()
}

/// What is reported for a name that is no environment.
pub open spec fn unsupported_environment(name: Seq<char>) -> Seq<char> {
    name + " not a suppported environment. Use either `local` or `production`"@
}

/// The environment with this name, which is taken as it stands.
pub open spec fn named_environment(name: Seq<char>) -> Result<Environment, Seq<char>> {
    if name == "local"@ {
        Ok(Environment::Local)
    } else if name == "production"@ {
        Ok(Environment::Production)
    } else {
        Err(unsupported_environment(name))
    }
}

/// Each environment is the one that its own name names.
pub proof fn law_environment_is_named_by_its_name(environment: Environment)
    ensures
        named_environment(environment.name()) == Ok::<Environment, Seq<char>>(environment),
{
    reveal_strlit("local");
    reveal_strlit("production");
    assert("local"@.len() != "production"@.len());
}

/// A parsed environment with its error as plain text.
pub open spec fn environment_view(parsed: Result<Environment, String>) -> Result<
    Environment,
    Seq<char>,
> {
    match parsed {
        Ok(environment) => Ok(environment),
        Err(message) => Err(message@),
    }
}

impl Environment {
    /// The name of the environment as it appears in configuration file names.
    pub open spec fn name(self) -> Seq<char> {
        match self {
            Environment::Local => "local"@,
            Environment::Production => "production"@,
        }
    }

    /// The name of the environment.
    pub fn as_str(&self) -> (name: &'static str)
        ensures
            name@ == self.name(),
    {
        match self {
            Environment::Local => "local",
            Environment::Production => "production",
        }
    }

    /// The environment with exactly this name: `local` or `production`.
    pub fn named(name: String) -> (parsed: Result<Environment, String>)
        ensures
            environment_view(parsed) == named_environment(name@),
    {
        if name == "local".to_owned() {
            Ok(Environment::Local)
        } else if name == "production".to_owned() {
            Ok(Environment::Production)
        } else {
            Err(name.concat(" not a suppported environment. Use either `local` or `production`"))
        }
    }

    /// The environment that `s` names, in whatever case it is written.
    pub fn try_from(s: String) -> (parsed: Result<Environment, String>)
        ensures
            environment_view(parsed) == named_environment(lowercase(s@)),
    {
        Environment::named(to_lowercase(s.as_str()))
    }

    /// The environment that the variable `APP_ENVIRONMENT` selects: `local`
    /// where it is not set.
    pub fn from_variable(value: Option<String>) -> (parsed: Result<Environment, String>)
        ensures
            match value {
                Some(s) => environment_view(parsed) == named_environment(lowercase(s@)),
                None => environment_view(parsed) == named_environment(lowercase("local"@)),
            },
    {
        match value {
            Some(s) => Environment::try_from(s),
            None => Environment::try_from("local".to_owned()),
        }
    }

    /// The name of the configuration file of this environment.
    pub fn file_name(&self) -> (name: String)
        ensures
            name@ == self.name() + ".yaml"@,
    {
        self.as_str().to_owned().concat(".yaml")
    }
}

} // verus!
