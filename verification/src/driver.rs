//! The database driver's types and the calls that open a pool. Verus takes
//! the contracts in this file on trust. Each says which of the driver's
//! settings the call sets and that the others stay as they were.

use vstd::prelude::*;

verus! {

/// The driver's handle to a set of reusable connections to one server.
#[verifier::external_type_specification]
#[verifier::external_body]
pub struct ExPool(mysql_async::Pool);

/// The driver's connection options.
#[verifier::external_type_specification]
#[verifier::external_body]
pub struct ExOpts(mysql_async::Opts);

/// The driver's builder of connection options.
#[verifier::external_type_specification]
#[verifier::external_body]
pub struct ExOptsBuilder(mysql_async::OptsBuilder);

/// The driver's options for an encrypted connection.
#[verifier::external_type_specification]
#[verifier::external_body]
pub struct ExSslOpts(mysql_async::SslOpts);

/// What connection options ask for, as far as this library sets it.
pub struct Settings {
    /// The server's address.
    pub host: Seq<char>,
    /// The server's port.
    pub port: u16,
    pub user: Option<Seq<char>>,
    pub password: Option<Seq<char>>,
    /// The default schema of the connection, if it has one.
    pub schema: Option<Seq<char>>,
    /// Whether the connection is to be encrypted.
    pub tls: bool,
}

/// The settings that a builder holds.
pub uninterp spec fn builder_settings(builder: mysql_async::OptsBuilder) -> Settings;

/// The settings that finished options hold.
pub uninterp spec fn options_settings(options: mysql_async::Opts) -> Settings;

/// The settings with which a pool opens its connections.
pub uninterp spec fn pool_settings(pool: mysql_async::Pool) -> Settings;

/// The settings of a builder that nothing was set on: the local address, the
/// server's usual port, no user, no password, no default schema, no
/// encryption.
pub open spec fn default_settings() -> Settings {
    Settings {
        host: "127.0.0.1"@,
        port: 3306,
        user: None,
        password: None,
        schema: None,
        tls: false,
    }
}

/// `OptsBuilder::default`: a builder that holds the driver's defaults.
#[verifier::external_body]
pub(crate) fn default_options() -> (builder: mysql_async::OptsBuilder)
    ensures
        builder_settings(builder) == default_settings(),
{
    mysql_async::OptsBuilder::default()
}

/// `OptsBuilder::ip_or_hostname`: the builder with the server's address
/// set and nothing else changed.
#[verifier::external_body]
pub(crate) fn with_host(builder: mysql_async::OptsBuilder, host: String) -> (set:
    mysql_async::OptsBuilder)
    ensures
        builder_settings(set) == (Settings { host: host@, ..builder_settings(builder) }),
{
    builder.ip_or_hostname(host)
}

/// `OptsBuilder::tcp_port`: the builder with the server's port set and
/// nothing else changed.
#[verifier::external_body]
pub(crate) fn with_port(builder: mysql_async::OptsBuilder, port: u16) -> (set:
    mysql_async::OptsBuilder)
    ensures
        builder_settings(set) == (Settings { port, ..builder_settings(builder) }),
{
    builder.tcp_port(port)
}

/// `OptsBuilder::user`: the builder with the user name set and nothing else
/// changed.
#[verifier::external_body]
pub(crate) fn with_user(builder: mysql_async::OptsBuilder, user: String) -> (set:
    mysql_async::OptsBuilder)
    ensures
        builder_settings(set) == (Settings { user: Some(user@), ..builder_settings(builder) }),
{
    builder.user(Some(user))
}

/// `OptsBuilder::pass`: the builder with the password set and nothing else
/// changed.
#[verifier::external_body]
pub(crate) fn with_password(builder: mysql_async::OptsBuilder, password: String) -> (set:
    mysql_async::OptsBuilder)
    ensures
        builder_settings(set) == (Settings {
            password: Some(password@),
            ..builder_settings(builder)
        }),
{
    builder.pass(Some(password))
}

/// `OptsBuilder::db_name`: the builder with the default schema set and
/// nothing else changed.
#[verifier::external_body]
pub(crate) fn with_database(builder: mysql_async::OptsBuilder, database: String) -> (set:
    mysql_async::OptsBuilder)
    ensures
        builder_settings(set) == (Settings {
            schema: Some(database@),
            ..builder_settings(builder)
        }),
{
    builder.db_name(Some(database))
}

/// `SslOpts::default`: the driver's usual options for an encrypted
/// connection. Nothing is known of them here.
#[verifier::external_body]
pub(crate) fn default_tls() -> mysql_async::SslOpts {
    mysql_async::SslOpts::default()
}

/// `OptsBuilder::ssl_opts`: the builder asking for an encrypted connection
/// with the given options, and nothing else changed.
#[verifier::external_body]
pub(crate) fn with_tls(builder: mysql_async::OptsBuilder, tls: mysql_async::SslOpts) -> (set:
    mysql_async::OptsBuilder)
    ensures
        builder_settings(set) == (Settings { tls: true, ..builder_settings(builder) }),
{
    builder.ssl_opts(tls)
}

/// `Opts::from` a builder: the options that hold what the builder holds.
#[verifier::external_body]
pub(crate) fn finish_options(builder: mysql_async::OptsBuilder) -> (options: mysql_async::Opts)
    ensures
        options_settings(options) == builder_settings(builder),
{
    mysql_async::Opts::from(builder)
}

/// `Pool::new`: a pool that opens its connections with the given options.
/// It connects to nothing yet. The call panics only where the options cannot
/// be had from its argument, and they are the argument here.
#[verifier::external_body]
pub(crate) fn new_pool(options: mysql_async::Opts) -> (pool: mysql_async::Pool)
    ensures
        pool_settings(pool) == options_settings(options),
{
    mysql_async::Pool::new(options)
}

/// `Pool::disconnect`: takes the handle and gives the work of closing the
/// pool, which is let go of here, so that the handle is dropped and the
/// pool closes with its last handle.
#[verifier::external_body]
pub(crate) fn release_pool(pool: mysql_async::Pool) {
    let _ = pool.disconnect();
}

} // verus!
