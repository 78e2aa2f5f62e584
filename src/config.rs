use vstd::prelude::*;
use vstd::string::StringExecFns;

verus! {

/// Everything one bucket's migration needs; read-only once built.
pub struct BucketMigrationConfiguration {
    pub source_bucket: String,
    pub source_access_key: String,
    pub source_secret_key: String,
    pub source_endpoint: String,
    pub destination_bucket: String,
    pub destination_access_key: String,
    pub destination_secret_key: String,
    pub destination_endpoint: String,
    pub delete_destination_files: bool,
    pub max_keys: usize,
    pub chunk_size: u64,
    pub sync_threads: usize,
    pub dry_run: bool,
}

/// Option combinations refused before any migration starts.
#[derive(PartialEq, Eq, Structural, Debug, Clone, Copy)]
pub enum ConfigError {
    /// A destination bucket was named without a source bucket.
    DestinationWithoutSource,
    /// A source bucket was named but several buckets were selected.
    SourceWithSeveralBuckets,
    /// The multipart chunk size is zero or does not fit in bytes.
    InvalidChunkSize,
    /// The worker count or the listing page size is zero.
    ZeroCount,
}

pub const BYTES_PER_MEGABYTE: u64 = 1048576;

/// Multipart chunk size in bytes for a size given in megabytes.
pub fn chunk_size_bytes(megabytes: u64) -> (r: Result<u64, ConfigError>)
    ensures
        megabytes == 0 || megabytes * BYTES_PER_MEGABYTE > u64::MAX <==> r is Err,
        r matches Err(e) ==> e == ConfigError::InvalidChunkSize,
        r matches Ok(b) ==> b == megabytes * BYTES_PER_MEGABYTE,
{
    if megabytes == 0 {
        return Err(ConfigError::InvalidChunkSize);
    }
    match megabytes.checked_mul(BYTES_PER_MEGABYTE) {
        Some(b) => Ok(b),
        None => Err(ConfigError::InvalidChunkSize),
    }
}

/// Worker count and listing page size must be positive.
pub fn check_counts(sync_threads: usize, max_keys: usize) -> (r: Result<(), ConfigError>)
    ensures
        r is Ok <==> sync_threads > 0 && max_keys > 0,
        r matches Err(e) ==> e == ConfigError::ZeroCount,
{
    if sync_threads == 0 || max_keys == 0 {
        Err(ConfigError::ZeroCount)
    } else {
        Ok(())
    }
}

/// Name of a destination bucket: the prefix, a dash, then the name.
pub open spec fn prefixed(prefix: Option<Seq<char>>, name: Seq<char>) -> Seq<char> {
    match prefix {
        Some(p) => p + seq!['-'] + name,
        None => name,
    }
}

/// View of an optional string.
pub open spec fn opt_view(o: Option<String>) -> Option<Seq<char>> {
    match o {
        Some(s) => Some(s@),
        None => None,
    }
}

/// Apply the destination prefix, when one is given, to a bucket name.
pub fn prefixed_name(prefix: &Option<String>, name: &String) -> (r: String)
    ensures
        r@ == prefixed(opt_view(*prefix), name@),
{
    match prefix {
        Some(p) => {
            let mut r = p.clone();
            r.append("-");
            proof {
                reveal_strlit("-");
            }
            assert("-"@ =~= seq!['-']);
            r.append(name.as_str());
            r
        },
        None => name.clone(),
    }
}

/// Destination bucket of the `i`-th selected bucket: the named destination
/// when a source bucket was named, else the source's own name; prefixed.
pub open spec fn destination_name(
    source_named: bool,
    destination: Option<Seq<char>>,
    prefix: Option<Seq<char>>,
    bucket: Seq<char>,
) -> Seq<char> {
    prefixed(
        prefix,
        if source_named && destination is Some {
            destination->0
        } else {
            bucket
        },
    )
}

/// Resolve the destination bucket of each selected bucket. A destination
/// without a source bucket is refused, as is a named source bucket that
/// does not stand alone in the selection.
pub fn resolve_destinations(
    source_bucket: &Option<String>,
    destination_bucket: &Option<String>,
    prefix: &Option<String>,
    buckets: &Vec<String>,
) -> (r: Result<Vec<String>, ConfigError>)
    ensures
        r == Err::<Vec<String>, ConfigError>(ConfigError::DestinationWithoutSource) <==> (
        source_bucket is None && destination_bucket is Some),
        r == Err::<Vec<String>, ConfigError>(ConfigError::SourceWithSeveralBuckets) <==> (
        source_bucket is Some && buckets@.len() != 1),
        r is Ok <==> !(source_bucket is None && destination_bucket is Some) && !(
        source_bucket is Some && buckets@.len() != 1),
        r matches Ok(names) ==> {
            &&& names@.len() == buckets@.len()
            &&& forall|i: int|
                0 <= i < buckets@.len() ==> (#[trigger] names@[i])@ == destination_name(
                    source_bucket is Some,
                    opt_view(*destination_bucket),
                    opt_view(*prefix),
                    buckets@[i]@,
                )
        },
{
    if source_bucket.is_none() && destination_bucket.is_some() {
        return Err(ConfigError::DestinationWithoutSource);
    }
    let source_named = source_bucket.is_some();
    if source_named && buckets.len() != 1 {
        return Err(ConfigError::SourceWithSeveralBuckets);
    }
    let mut names: Vec<String> = Vec::new();
    let mut i: usize = 0;
    while i < buckets.len()
        invariant
            source_named == source_bucket is Some,
            i <= buckets@.len(),
            names@.len() == i,
            forall|j: int|
                0 <= j < i ==> (#[trigger] names@[j])@ == destination_name(
                    source_named,
                    opt_view(*destination_bucket),
                    opt_view(*prefix),
                    buckets@[j]@,
                ),
        decreases buckets@.len() - i,
    {
        let target = match destination_bucket {
            Some(d) if source_named => d,
            _ => &buckets[i],
        };
        names.push(prefixed_name(prefix, target));
        i = i + 1;
    }
    Ok(names)
}

} // verus!
