//! Handles to a deployment, its databases and their collections.

use vstd::prelude::*;
use mongodb::{Client, Collection, Database};
use mongodb::bson::RawDocumentBuf;

verus! {

/// What `Database::name` gives: the name of the database.
pub uninterp spec fn database_name(db: Database) -> Seq<char>;

/// What `Collection::name` gives: the name of the collection.
pub uninterp spec fn collection_name(coll: Collection<RawDocumentBuf>) -> Seq<char>;

/// The database part of what `Collection::namespace` gives: the name of the
/// database that the collection belongs to.
pub uninterp spec fn collection_database_name(coll: Collection<RawDocumentBuf>) -> Seq<char>;

/// The name of the database that `Client::default_database` hands back, if
/// it hands one back: the default database named in the options the client
/// was built with.
pub uninterp spec fn client_default_database_name(client: Client) -> Option<Seq<char>>;

/// `Client::database`: a handle to the database of that name.
/// Trusted: the handle's name is `name` (the driver stores it as given).
#[verifier::external_body]
fn client_database(client: &Client, name: &str) -> (res: Database)
    ensures
        database_name(res) == name@,
{
    client.database(name)
}

/// `Client::default_database`: a handle to the database that the client's
/// options name, if they name one.
/// Trusted: whether a handle comes back, and its name, depend on the client
/// alone (the driver reads the name from the client's options and hands back
/// `self.database(name)`). Nothing else is stated of the handle.
#[verifier::external_body]
fn default_database_of(client: &Client) -> (res: Option<Database>)
    ensures
        match client_default_database_name(*client) {
            None => res is None,
            Some(n) => res matches Some(db) && database_name(db) == n,
        },
{
    client.default_database()
}

/// `Database::name`.
#[verifier::external_body]
fn name_of_database(db: &Database) -> (res: &str)
    ensures
        res@ == database_name(*db),
{
    db.name()
}

/// `Database::collection`: a handle to the collection of that name.
/// Trusted: the handle's name is `name` (the driver stores it as given) and
/// it belongs to `db` (the driver keeps `db`, and the namespace's database is
/// `db.name()`). Nothing else is stated of the handle.
#[verifier::external_body]
fn database_collection(db: &Database, name: &str) -> (res: Collection<RawDocumentBuf>)
    ensures
        collection_name(res) == name@,
        collection_database_name(res) == database_name(*db),
{
    db.collection(name)
}

/// The PHP class that holds a client.
pub struct MongoClient {
    pub client: Client,
}

/// The PHP class that holds a database handle.
pub struct MongoDatabase {
    pub database: Database,
}

/// The PHP class that holds a collection handle.
pub struct MongoCollection {
    pub collection: Collection<RawDocumentBuf>,
}

impl MongoClient {
    /// The database of that name.
    pub fn database(&self, name: &str) -> (res: MongoDatabase)
        ensures
            database_name(res.database) == name@,
    {
        MongoDatabase { database: client_database(&self.client, name) }
    }

    /// The database that the client's options name, if they name one.
    pub fn defaultDatabase(&self) -> (res: Option<MongoDatabase>)
        ensures
            match client_default_database_name(self.client) {
                None => res is None,
                Some(n) => res matches Some(d) && database_name(d.database) == n,
            },
    {
        match default_database_of(&self.client) {
            None => None,
            Some(database) => Some(MongoDatabase { database: database }),
        }
    }
}

impl MongoDatabase {
    /// The name of the database.
    pub fn name(&self) -> (res: &str)
        ensures
            res@ == database_name(self.database),
    {
        name_of_database(&self.database)
    }

    /// The collection of that name in this database.
    pub fn collection(&self, name: &str) -> (res: MongoCollection)
        ensures
            collection_name(res.collection) == name@,
            collection_database_name(res.collection) == database_name(self.database),
    {
        MongoCollection { collection: database_collection(&self.database, name) }
    }
}

} // verus!
