use vstd::prelude::*;

verus! {

/// How many rule evaluations may be outstanding at once, unless configured.
pub const DEFAULT_CAPACITY: u64 = 100;

/// Seconds slept between the end of one cycle and the start of the next,
/// unless configured.
pub const DEFAULT_SLEEP_SECS: u64 = 60;

/// The index whose documents the purge step spares, unless configured.
pub open spec fn default_protected_index() -> Seq<char> {
    seq!['s', 'i', 'g', 'm', 'a', '_', 'r', 'u', 'l', 'e', 's']
}

/// Everything the pipeline is run with.
pub struct Config {
    /// Base URL of the search backend.
    pub search_url: String,
    pub search_user: String,
    pub search_password: String,
    /// Where cycle results are posted.
    pub notify_url: String,
    /// The admission capacity: evaluations outstanding at once.
    pub capacity: u64,
    pub sleep_secs: u64,
    /// Matches in this index are never deleted.
    pub protected_index: String,
}

impl Config {
    /// A configuration for the given endpoints and credentials, with the
    /// default capacity, sleep and protected index.
    pub fn new(search_url: String, search_user: String, search_password: String, notify_url: String) -> (r: Config)
        ensures
            r.search_url == search_url,
            r.search_user == search_user,
            r.search_password == search_password,
            r.notify_url == notify_url,
            r.capacity == DEFAULT_CAPACITY,
            r.sleep_secs == DEFAULT_SLEEP_SECS,
            r.protected_index@ == default_protected_index(),
    {
        let protected_index = "sigma_rules".to_owned();
        proof {
            reveal_strlit("sigma_rules");
        }
        assert(protected_index@ =~= default_protected_index());
        Config {
            search_url,
            search_user,
            search_password,
            notify_url,
            capacity: DEFAULT_CAPACITY,
            sleep_secs: DEFAULT_SLEEP_SECS,
            protected_index,
        }
    }
}

} // verus!
