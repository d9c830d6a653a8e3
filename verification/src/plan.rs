//! The download plan: one job per photo record, in response order.
//!
//! The materializer fetches each record's image and writes it under the
//! output directory. The plan fixes, before any fetch, exactly which URL
//! is fetched and which path is written for each record, one job per
//! record and in the order the records came.

use vstd::prelude::*;

use crate::filename::{output_path, spec_output_path};
use crate::search::PhotoRecord;

verus! {

/// One download to perform: fetch `url` and write the body to `path`.
#[derive(Debug, Clone)]
pub struct DownloadJob {
    pub url: String,
    pub path: String,
}

/// Build the download plan for a list of records: exactly one job per
/// record, in the same order, fetching the record's image URL and writing
/// to `<dir>/<sanitized id>.<extension>`.
pub fn plan_downloads(records: &Vec<PhotoRecord>, dir: &str) -> (jobs: Vec<DownloadJob>)
    ensures
        jobs@.len() == records@.len(),
        forall|i: int|
            0 <= i < records@.len() ==> (#[trigger] jobs@[i]).url@ == records@[i].image_url@
                && jobs@[i].path@ == spec_output_path(dir@, records@[i].id@, records@[i].image_url@),
{
    let mut jobs: Vec<DownloadJob> = Vec::new();
    let mut i: usize = 0;
    while i < records.len()
        invariant
            i <= records@.len(),
            jobs@.len() == i,
            forall|j: int|
                0 <= j < i ==> (#[trigger] jobs@[j]).url@ == records@[j].image_url@
                    && jobs@[j].path@ == spec_output_path(
                    dir@,
                    records@[j].id@,
                    records@[j].image_url@,
                ),
        decreases records@.len() - i,
    {
        let url = records[i].image_url.clone();
        let path = output_path(dir, records[i].id.as_str(), records[i].image_url.as_str());
        jobs.push(DownloadJob { url, path });
        i = i + 1;
    }
    jobs
}

} // verus!
