use vstd::prelude::*;
use crate::feed::adapters::{
    extract_matches, extract_outcome, FeedAdapter, FeedError, NormalizedMatch, SourceEnvelope,
};

verus! {

/// The basketball live list.
pub struct BasketballAdapter;

impl FeedAdapter for BasketballAdapter {
    open spec fn sport(&self) -> i32 {
        2
    }

    fn sport_id(&self) -> (r: i32) {
        2
    }

    open spec fn sport_name(&self) -> Seq<char> {
        "basketball"@
    }

    fn name(&self) -> (r: &'static str) {
        "basketball"
    }

    fn target_url(&self) -> (r: &'static str)
        ensures
            r@ == "https://m.aiscore.com/basketball"@,
    {
        "https://m.aiscore.com/basketball"
    }

    fn extract(&self, e: &SourceEnvelope) -> (r: Result<Vec<NormalizedMatch>, FeedError>) {
        extract_matches(e, 2)
    }
}

} // verus!
