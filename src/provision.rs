use vstd::prelude::*;

verus! {

/// What to do about a destination bucket before any transfer.
#[derive(PartialEq, Eq, Structural, Debug, Clone, Copy)]
pub enum ProvisionAction {
    /// It exists: nothing to do.
    Keep,
    /// It is missing: create it.
    Create,
    /// It is missing but this is a dry run: report that it would be created.
    ReportOnly,
}

/// What the destination answered to a bucket creation.
pub enum CreateBucketResult {
    Created,
    AlreadyExists,
    Rejected(String),
}

/// The destination bucket could not be made ready; the bucket's migration
/// stops.
pub struct ProvisionError {
    pub bucket: String,
    pub detail: String,
}

/// Decide how to make the destination bucket ready. A dry run never
/// creates anything.
pub fn provision_action(exists: bool, dry_run: bool) -> (r: ProvisionAction)
    ensures
        r == (if exists {
            ProvisionAction::Keep
        } else if dry_run {
            ProvisionAction::ReportOnly
        } else {
            ProvisionAction::Create
        }),
        dry_run ==> r != ProvisionAction::Create,
{
    if exists {
        ProvisionAction::Keep
    } else if dry_run {
        ProvisionAction::ReportOnly
    } else {
        ProvisionAction::Create
    }
}

/// Read the answer to a creation: a bucket that already exists was created
/// concurrently and counts as ready; a rejection fails the bucket.
pub fn creation_outcome(bucket: &String, answer: CreateBucketResult) -> (r: Result<
    (),
    ProvisionError,
>)
    ensures
        r is Ok <==> !(answer is Rejected),
        r matches Err(e) ==> {
            &&& e.bucket@ == bucket@
            &&& answer matches CreateBucketResult::Rejected(d) && e.detail@ == d@
        },
{
    match answer {
        CreateBucketResult::Created => Ok(()),
        CreateBucketResult::AlreadyExists => Ok(()),
        CreateBucketResult::Rejected(detail) => Err(ProvisionError { bucket: bucket.clone(), detail }),
    }
}

/// Whether the destination bucket's listing must be read. A dry run against
/// a bucket that does not exist yet has nothing to read: the bucket would be
/// created empty.
pub fn destination_listing_needed(bucket_exists: bool, dry_run: bool) -> (r: bool)
    ensures
        r == (bucket_exists || !dry_run),
{
    bucket_exists || !dry_run
}

} // verus!
