use vstd::prelude::*;

verus! {

/// Static connection configuration for the relational store: host, port,
/// credentials and database name. Built once and shared by value; every
/// operation opens its own connection from it, outside this crate.
#[derive(Debug, Clone)]
pub struct Database {
    host: String,
    port: u16,
    user: String,
    password: String,
    database: String,
}

/// The abstract value of a `Database` configuration.
pub struct DatabaseV {
    pub host: Seq<char>,
    pub port: u16,
    pub user: Seq<char>,
    pub password: Seq<char>,
    pub database: Seq<char>,
}

impl View for Database {
    type V = DatabaseV;

    closed spec fn view(&self) -> DatabaseV {
        DatabaseV {
            host: self.host@,
            port: self.port,
            user: self.user@,
            password: self.password@,
            database: self.database@,
        }
    }
}

impl Database {
    /// A configuration from its parts.
    pub fn from_parts(
        host: String,
        port: u16,
        user: String,
        password: String,
        database: String,
    ) -> (d: Database)
        ensures
            d@.host == host@,
            d@.port == port,
            d@.user == user@,
            d@.password == password@,
            d@.database == database@,
    {
        Database { host, port, user, password, database }
    }

    /// The host to connect to.
    pub fn host(&self) -> (r: &str)
        ensures
            r@ == self@.host,
    {
        self.host.as_str()
    }

    /// The port to connect to.
    pub fn port(&self) -> (r: u16)
        ensures
            r == self@.port,
    {
        self.port
    }

    /// The user to authenticate as.
    pub fn user(&self) -> (r: &str)
        ensures
            r@ == self@.user,
    {
        self.user.as_str()
    }

    /// The password to authenticate with.
    pub fn password(&self) -> (r: &str)
        ensures
            r@ == self@.password,
    {
        self.password.as_str()
    }

    /// The database to open.
    pub fn database(&self) -> (r: &str)
        ensures
            r@ == self@.database,
    {
        self.database.as_str()
    }
}

} // verus!
