use vstd::prelude::*;
use crate::feed::adapters::{
    extract_matches, extract_outcome, FeedAdapter, FeedError, NormalizedMatch, SourceEnvelope,
};

verus! {

/// The football live list.
pub struct FootballAdapter;

impl FeedAdapter for FootballAdapter {
    open spec fn sport(&self) -> i32 {
        1
    }

    fn sport_id(&self) -> (r: i32) {
        1
    }

    open spec fn sport_name(&self) -> Seq<char> {
        "football"@
    }

    fn name(&self) -> (r: &'static str) {
        "football"
    }

    fn target_url(&self) -> (r: &'static str)
        ensures
            r@ == "https://m.aiscore.com/"@,
    {
        "https://m.aiscore.com/"
    }

    fn extract(&self, e: &SourceEnvelope) -> (r: Result<Vec<NormalizedMatch>, FeedError>) {
        extract_matches(e, 1)
    }
}

} // verus!
