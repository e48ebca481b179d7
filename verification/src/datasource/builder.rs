//! Collecting the configuration of a data source and loading it.

use vstd::prelude::*;
use vstd::string::*;

use crate::datasource::mysql::has_mysql_config;
use crate::datasource::mysql::MySQLDataSource;
use crate::key_values::insert_all;
use crate::key_values::pairs_view;
use crate::key_values::KeyValues;

verus! {

/// Why a data source could not be loaded.
#[derive(Debug, Clone, Copy, PartialEq, Eq, Structural)]
pub enum DataSourceError {
    /// The data-source type names no supported kind of source.
    UnsupportedDataSourceType,
}

impl DataSourceError {
    /// A message that describes the error.
    pub fn message(&self) -> (m: &'static str)
        ensures
            m@ == unsupported_type_message(),
    {
        proof {
            reveal_strlit("unsupported data source type!!!");
        }
        match self {
            DataSourceError::UnsupportedDataSourceType => "unsupported data source type!!!",
        }
    }
}

/// The text of [`DataSourceError::UnsupportedDataSourceType`].
pub open spec fn unsupported_type_message() -> Seq<char> {
    seq![
        'u', 'n', 's', 'u', 'p', 'p', 'o', 'r', 't', 'e', 'd', ' ', 'd', 'a', 't', 'a', ' ', 's',
        'o', 'u', 'r', 'c', 'e', ' ', 't', 'y', 'p', 'e', '!', '!', '!',
    ]
}

/// `c` is the lower-case ASCII letter `lower` or its upper-case form.
pub open spec fn same_letter(c: char, lower: char) -> bool {
    c == lower || c as u32 + 32 == lower as u32
}

/// The data-source type is `mysql`, in any mix of ASCII upper and lower case.
pub open spec fn is_mysql_type(t: Seq<char>) -> bool {
    &&& t.len() == 5
    &&& same_letter(t[0], 'm')
    &&& same_letter(t[1], 'y')
    &&& same_letter(t[2], 's')
    &&& same_letter(t[3], 'q')
    &&& same_letter(t[4], 'l')
}

fn is_same_letter(c: char, lower: char) -> (b: bool)
    requires
        'a' <= lower <= 'z',
    ensures
        b == same_letter(c, lower),
{
    c == lower || (c as u32) + 32 == (lower as u32)
}

/// Whether the data-source type names MySQL (see [`is_mysql_type`]).
pub fn names_mysql(datasource_type: &str) -> (b: bool)
    ensures
        b == is_mysql_type(datasource_type@),
{
    if datasource_type.unicode_len() != 5 {
        return false;
    }
    is_same_letter(datasource_type.get_char(0), 'm') && is_same_letter(
        datasource_type.get_char(1),
        'y',
    ) && is_same_letter(datasource_type.get_char(2), 's') && is_same_letter(
        datasource_type.get_char(3),
        'q',
    ) && is_same_letter(datasource_type.get_char(4), 'l')
}

/// The type of a data source and its configuration, gathered before the source is loaded.
#[derive(Debug)]
pub struct DataSourceBuilder {
    datasource_type: String,
    config: KeyValues,
}

impl DataSourceBuilder {
    /// The type of data source to load.
    pub closed spec fn datasource_type(&self) -> Seq<char> {
        self.datasource_type@
    }

    /// The configuration, as a map from keys to values.
    pub closed spec fn config(&self) -> Map<Seq<char>, Seq<char>> {
        self.config.map()
    }

    /// A builder for a data source of type `datasource_type`, with no configuration.
    pub fn new(datasource_type: &str) -> (b: Self)
        ensures
            b.datasource_type() == datasource_type@,
            b.config() == Map::<Seq<char>, Seq<char>>::empty(),
    {
        DataSourceBuilder { datasource_type: datasource_type.to_owned(), config: KeyValues::new() }
    }

    /// Adds the environment's variables `vars` to the configuration, in order, then loads the
    /// data source (see [`DataSourceBuilder::load`]).
    pub fn load_from_env(self, vars: Vec<(String, String)>) -> (r: Result<
        MySQLDataSource,
        DataSourceError,
    >)
        requires
            is_mysql_type(self.datasource_type()) ==> has_mysql_config(
                insert_all(self.config(), pairs_view(vars@)),
            ),
        ensures
            match r {
                Ok(ds) => {
                    &&& is_mysql_type(self.datasource_type())
                    &&& ds.connection_url@ == crate::datasource::mysql::configured_url(
                        insert_all(self.config(), pairs_view(vars@)),
                    )
                    &&& ds.query_string@ == insert_all(self.config(), pairs_view(vars@))[crate::datasource::mysql::QUERY@]
                },
                Err(e) => !is_mysql_type(self.datasource_type()) && e
                    == DataSourceError::UnsupportedDataSourceType,
            },
    {
        let mut builder = self;
        builder.config.insert_pairs(vars);
        builder.load()
    }

    /// Loads the data source that the type and configuration describe. The type `mysql`, in
    /// any ASCII case, gives a MySQL data source; any other type is refused.
    pub fn load(self) -> (r: Result<MySQLDataSource, DataSourceError>)
        requires
            is_mysql_type(self.datasource_type()) ==> has_mysql_config(self.config()),
        ensures
            match r {
                Ok(ds) => {
                    &&& is_mysql_type(self.datasource_type())
                    &&& ds.connection_url@ == crate::datasource::mysql::configured_url(
                        self.config(),
                    )
                    &&& ds.query_string@ == self.config()[crate::datasource::mysql::QUERY@]
                },
                Err(e) => !is_mysql_type(self.datasource_type()) && e
                    == DataSourceError::UnsupportedDataSourceType,
            },
    {
        if names_mysql(self.datasource_type.as_str()) {
            MySQLDataSource::new(self)
        } else {
            Err(DataSourceError::UnsupportedDataSourceType)
        }
    }

    /// The type of data source to load.
    pub fn get_datasource_type(&self) -> (t: &str)
        ensures
            t@ == self.datasource_type(),
    {
        self.datasource_type.as_str()
    }

    /// Sets the configuration value of `key` to `value`.
    pub fn set_config(self, key: &str, value: &str) -> (b: Self)
        ensures
            b.datasource_type() == self.datasource_type(),
            b.config() == self.config().insert(key@, value@),
    {
        let mut builder = self;
        builder.config.insert(key.to_owned(), value.to_owned());
        builder
    }

    /// The configuration value of `key`, if it is set.
    pub fn get_config(&self, key: &str) -> (r: Option<&String>)
        ensures
            r is Some <==> self.config().contains_key(key@),
            r matches Some(v) ==> v@ == self.config()[key@],
    {
        self.config.get(key)
    }
}

impl Default for DataSourceBuilder {
    /// A builder with an empty type and no configuration.
    fn default() -> (b: Self)
        ensures
            b.datasource_type() == Seq::<char>::empty(),
            b.config() == Map::<Seq<char>, Seq<char>>::empty(),
    {
        DataSourceBuilder { datasource_type: String::new(), config: KeyValues::new() }
    }
}

/// Reading a configuration key after setting it gives the value set; the other keys keep
/// what they had.
pub proof fn law_set_config_then_get_config(
    builder: DataSourceBuilder,
    key: Seq<char>,
    value: Seq<char>,
    other: Seq<char>,
)
    ensures
        builder.config().insert(key, value).contains_key(key),
        builder.config().insert(key, value)[key] == value,
        other != key ==> (builder.config().insert(key, value).contains_key(other)
            <==> builder.config().contains_key(other)),
        other != key && builder.config().contains_key(other) ==> builder.config().insert(
            key,
            value,
        )[other] == builder.config()[other],
{
}

/// Loading from the environment is setting each variable in turn, then loading: the
/// configuration that the source is built from holds the last value of each variable.
pub proof fn law_environment_overrides_config(
    config: Map<Seq<char>, Seq<char>>,
    vars: Seq<(Seq<char>, Seq<char>)>,
    name: Seq<char>,
    value: Seq<char>,
)
    ensures
        insert_all(config, vars.push((name, value))).contains_key(name),
        insert_all(config, vars.push((name, value)))[name] == value,
{
    assert(vars.push((name, value)).drop_last() =~= vars);
}

} // verus!
