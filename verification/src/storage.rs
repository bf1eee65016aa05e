//! Backup of the database to object storage, and restore from it.

use vstd::prelude::*;

verus! {

/// Configuration for S3 storage.
#[derive(Debug, Clone)]
pub struct S3Config {
    /// S3 bucket name.
    pub bucket: String,
    /// S3 access key.
    pub access_key: Option<String>,
    /// S3 secret key.
    pub secret_key: Option<String>,
    /// S3 endpoint URL.
    pub endpoint_url: Option<String>,
    /// S3 region name.
    pub region_name: Option<String>,
    /// Folder name for database backup.
    pub db_folder_name: String,
}

impl Default for S3Config {
    fn default() -> (r: Self)
        ensures
            r.bucket@ == Seq::<char>::empty(),
            r.access_key is None,
            r.secret_key is None,
            r.endpoint_url is None,
            r.region_name is None,
            r.db_folder_name@ == "db"@,
    {
        S3Config {
            bucket: String::new(),
            access_key: None,
            secret_key: None,
            endpoint_url: None,
            region_name: None,
            db_folder_name: "db".to_owned(),
        }
    }
}

/// Why a backup or a restore failed.
#[derive(Debug, Clone, Copy, PartialEq, Eq, Structural)]
pub enum StorageError {
    /// The database file exists and may not be overwritten.
    DatabaseExists,
}

/// Backs the database up to S3. Without S3 support this does nothing,
/// and that is no failure.
pub fn backup(_database_path: &str, _s3_config: &S3Config) -> (r: Result<(), StorageError>)
    ensures
        r is Ok,
{
    Ok(())
}

/// Restores the database from S3. Without S3 support this does nothing,
/// and that is no failure.
pub fn restore(_database_path: &str, _s3_config: &S3Config, _overwrite: bool) -> (r: Result<
    (),
    StorageError,
>)
    ensures
        r is Ok,
{
    Ok(())
}

} // verus!
