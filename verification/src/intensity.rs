//! The intensity classes of commit counts.

use vstd::prelude::*;

verus! {

/// Number of intensity buckets.
pub const BUCKETS: u8 = 6;

/// The bucket of a commit count: 0 for no commit, 1 for one, 2 for two to
/// four, 3 for five to nine, 4 for ten to nineteen, 5 for twenty or more.
pub open spec fn spec_classify(count: nat) -> u8 {
    if count == 0 {
        0
    } else if count == 1 {
        1
    } else if count <= 4 {
        2
    } else if count <= 9 {
        3
    } else if count <= 19 {
        4
    } else {
        5
    }
}

/// The intensity bucket of a commit count.
pub fn classify(count: u64) -> (bucket: u8)
    ensures
        bucket == spec_classify(count as nat),
        bucket < BUCKETS,
{
    if count == 0 {
        0
    } else if count == 1 {
        1
    } else if count <= 4 {
        2
    } else if count <= 9 {
        3
    } else if count <= 19 {
        4
    } else {
        5
    }
}

/// What the legend says of a bucket after the number of its days; empty
/// for a bucket that the legend does not show.
pub open spec fn spec_bucket_label(bucket: u8) -> Seq<char> {
    if bucket == 1 {
        " days with 1 commit"@
    } else if bucket == 2 {
        " days with 2-4 commits"@
    } else if bucket == 3 {
        " days with 5-9 commits"@
    } else if bucket == 4 {
        " days with 10-19 commits"@
    } else if bucket == 5 {
        " days with 20+ commits"@
    } else {
        ""@
    }
}

/// The legend text of a bucket.
pub fn bucket_label(bucket: u8) -> (label: &'static str)
    ensures
        label@ == spec_bucket_label(bucket),
{
    if bucket == 1 {
        " days with 1 commit"
    } else if bucket == 2 {
        " days with 2-4 commits"
    } else if bucket == 3 {
        " days with 5-9 commits"
    } else if bucket == 4 {
        " days with 10-19 commits"
    } else if bucket == 5 {
        " days with 20+ commits"
    } else {
        ""
    }
}

} // verus!
