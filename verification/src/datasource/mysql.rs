//! The configuration of a MySQL data source.

use vstd::prelude::*;
use vstd::string::*;

use crate::datasource::builder::DataSourceBuilder;
use crate::datasource::builder::DataSourceError;

verus! {

/// The configuration key of the database user.
pub const MYSQL_USER: &'static str = "MYSQL_USER";

/// The configuration key of the user's password.
pub const MYSQL_PASSWORD: &'static str = "MYSQL_PASSWORD";

/// The configuration key of the database host.
pub const MYSQL_HOST_NAME: &'static str = "MYSQL_HOST_NAME";

/// The configuration key of the database port.
pub const MYSQL_PORT: &'static str = "MYSQL_PORT";

/// The configuration key of the database name.
pub const MYSQL_DATABASE: &'static str = "MYSQL_DATABASE";

/// The configuration key of the query whose rows are read.
pub const QUERY: &'static str = "query";

/// The configuration names every value a MySQL data source is made from.
pub open spec fn has_mysql_config(config: Map<Seq<char>, Seq<char>>) -> bool {
    &&& config.contains_key(MYSQL_USER@)
    &&& config.contains_key(MYSQL_PASSWORD@)
    &&& config.contains_key(MYSQL_HOST_NAME@)
    &&& config.contains_key(MYSQL_PORT@)
    &&& config.contains_key(MYSQL_DATABASE@)
    &&& config.contains_key(QUERY@)
}

/// `mysql://{user}:{password}@{host}:{port}/{database}`, the parts inserted as they are.
pub open spec fn mysql_url(
    user: Seq<char>,
    password: Seq<char>,
    host: Seq<char>,
    port: Seq<char>,
    database: Seq<char>,
) -> Seq<char> {
    seq!['m', 'y', 's', 'q', 'l', ':', '/', '/'] + user + seq![':'] + password + seq!['@'] + host
        + seq![':'] + port + seq!['/'] + database
}

/// The connection URL that a configuration describes.
pub open spec fn configured_url(config: Map<Seq<char>, Seq<char>>) -> Seq<char> {
    mysql_url(
        config[MYSQL_USER@],
        config[MYSQL_PASSWORD@],
        config[MYSQL_HOST_NAME@],
        config[MYSQL_PORT@],
        config[MYSQL_DATABASE@],
    )
}

/// Builds `mysql://{user}:{password}@{host}:{port}/{database}`.
pub fn mysql_connection_url(
    user: &str,
    password: &str,
    host: &str,
    port: &str,
    database: &str,
) -> (url: String)
    ensures
        url@ == mysql_url(user@, password@, host@, port@, database@),
{
    proof {
        reveal_strlit("mysql://");
        reveal_strlit(":");
        reveal_strlit("@");
        reveal_strlit("/");
    }
    let mut url = String::from_str("mysql://");
    url.append(user);
    url.append(":");
    url.append(password);
    url.append("@");
    url.append(host);
    url.append(":");
    url.append(port);
    url.append("/");
    url.append(database);
    assert(url@ =~= mysql_url(user@, password@, host@, port@, database@));
    url
}

/// A MySQL data source: where to connect and which query to run. Opening the connection is
/// left to the caller.
pub struct MySQLDataSource {
    pub connection_url: String,
    pub query_string: String,
}

impl MySQLDataSource {
    /// The data source that the builder's configuration describes.
    pub fn new(datasource_builder: DataSourceBuilder) -> (r: Result<Self, DataSourceError>)
        requires
            has_mysql_config(datasource_builder.config()),
        ensures
            r matches Ok(ds) && ds.connection_url@ == configured_url(datasource_builder.config())
                && ds.query_string@ == datasource_builder.config()[QUERY@],
    {
        Self::load_from_config(datasource_builder)
    }

    fn load_from_config(datasource_builder: DataSourceBuilder) -> (r: Result<Self, DataSourceError>)
        requires
            has_mysql_config(datasource_builder.config()),
        ensures
            r matches Ok(ds) && ds.connection_url@ == configured_url(datasource_builder.config())
                && ds.query_string@ == datasource_builder.config()[QUERY@],
    {
        let mysql_user = datasource_builder.get_config(MYSQL_USER).unwrap();
        let mysql_password = datasource_builder.get_config(MYSQL_PASSWORD).unwrap();
        let mysql_host_name = datasource_builder.get_config(MYSQL_HOST_NAME).unwrap();
        let mysql_port = datasource_builder.get_config(MYSQL_PORT).unwrap();
        let mysql_database = datasource_builder.get_config(MYSQL_DATABASE).unwrap();
        let query_string = datasource_builder.get_config(QUERY).unwrap().clone();
        let connection_url = mysql_connection_url(
            mysql_user.as_str(),
            mysql_password.as_str(),
            mysql_host_name.as_str(),
            mysql_port.as_str(),
            mysql_database.as_str(),
        );
        Ok(MySQLDataSource { connection_url, query_string })
    }
}

} // verus!
