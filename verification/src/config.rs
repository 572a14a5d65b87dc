//! One watched favourite list and the choices made from the configuration.

use vstd::prelude::*;

verus! {

/// One watched favourite list, as the configuration file lists it.
#[derive(Debug, PartialEq, Eq)]
pub struct Config {
    /// Id of the favourite list.
    pub media_id: u64,
    /// Minutes between two checks of the list.
    pub interval: u64,
    /// Extra options handed to the downloader, separated by single spaces.
    pub option: String,
    /// Directory under `downloads/` that receives the videos.
    pub path: String,
    /// Whether the list is watched at all.
    pub update: bool,
}

/// The configurations whose `update` flag is set, in the order given.
pub open spec fn watched(configs: Seq<Config>) -> Seq<Config> {
    configs.filter(|c: Config| c.update)
}

/// Which configurations are watched: one configuration is kept exactly when its
/// `update` flag is set, the choice for a list of configurations is the choice for
/// its first part followed by the choice for the rest (so order is kept), every
/// configuration with the flag is in the result, and only such configurations are.
pub proof fn lemma_watched_law(configs: Seq<Config>, more: Seq<Config>, c: Config)
    ensures
        watched(seq![c]) == if c.update {
            seq![c]
        } else {
            Seq::<Config>::empty()
        },
        watched(configs + more) == watched(configs) + watched(more),
        forall|i: int| 0 <= i < configs.len() && configs[i].update ==> #[trigger] watched(configs).contains(
            configs[i],
        ),
        forall|j: int| 0 <= j < watched(configs).len() ==> (#[trigger] watched(configs)[j]).update
            && configs.contains(watched(configs)[j]),
        watched(configs).len() <= configs.len(),
{
    broadcast use vstd::seq_lib::group_filter_ensures;

    reveal(Seq::filter);
    let one = seq![c];
    assert(one.drop_last() =~= Seq::<Config>::empty());
    assert(Seq::<Config>::empty().filter(|x: Config| x.update) =~= Seq::<Config>::empty());
    Seq::filter_distributes_over_add(configs, more, |x: Config| x.update);
    assert forall|i: int| 0 <= i < configs.len() && configs[i].update implies #[trigger] watched(configs).contains(
        configs[i],
    ) by {
        configs.lemma_filter_contains(|x: Config| x.update, i);
    }
    assert forall|j: int| 0 <= j < watched(configs).len() implies (#[trigger] watched(configs)[j]).update
        && configs.contains(watched(configs)[j]) by {
        configs.lemma_filter_pred(|x: Config| x.update, j);
        assert(watched(configs).contains(watched(configs)[j]));
        configs.lemma_filter_contains_rev(|x: Config| x.update, watched(configs)[j]);
    }
    configs.lemma_filter_len(|x: Config| x.update);
}

/// Seconds in one minute.
pub const SECS_PER_MINUTE: u64 = 60;

impl Config {
    /// Keeps the configurations that are to be watched, in order.
    pub fn feeds_to_update(configs: Vec<Config>) -> (kept: Vec<Config>)
        ensures
            kept@ == watched(configs@),
    {
        let ghost all = configs@;
        let mut rest = configs;
        let mut kept: Vec<Config> = Vec::new();
        let ghost mut done: int = 0;
        assert(all.take(0) =~= Seq::<Config>::empty());
        while rest.len() > 0
            invariant
                0 <= done <= all.len(),
                rest@ == all.skip(done),
                kept@ == watched(all.take(done)),
            decreases rest.len(),
        {
            let c = rest.remove(0);
            proof {
                assert(all.take(done + 1).drop_last() =~= all.take(done));
                assert(all.take(done + 1).last() == c);
                reveal(Seq::filter);
                assert(rest@ =~= all.skip(done + 1));
            }
            if c.update {
                kept.push(c);
            }
            proof {
                done = done + 1;
            }
        }
        assert(all.take(done) =~= all);
        kept
    }

    /// The login token to use: the one stored locally wins; otherwise the value of
    /// the environment variable, when it is set and valid Unicode.
    ///
    /// `env_var` is `None` when the variable is unset and `Some(None)` when its value
    /// is not valid Unicode.
    pub fn sessdata_from(stored: Option<String>, env_var: Option<Option<String>>) -> (token: Option<String>)
        ensures
            stored is Some ==> token == stored,
            stored is None ==> token == (match env_var {
                Some(v) => v,
                None => None,
            }),
    {
        match stored {
            Some(s) => Some(s),
            None => match env_var {
                Some(v) => v,
                None => None,
            },
        }
    }

    /// What is written to the local token file at start-up: the environment
    /// variable's raw bytes, when the file does not exist yet and the variable is set.
    pub fn sessdata_to_store(file_exists: bool, env_bytes: Option<Vec<u8>>) -> (write: Option<Vec<u8>>)
        ensures
            file_exists ==> write is None,
            !file_exists ==> write == env_bytes,
    {
        if file_exists {
            None
        } else {
            env_bytes
        }
    }

    /// Seconds to wait between two checks of the list.
    pub fn poll_secs(&self) -> (secs: u64)
        requires
            self.interval * SECS_PER_MINUTE <= u64::MAX,
        ensures
            secs == self.interval * 60,
    {
        self.interval * SECS_PER_MINUTE
    }
}

} // verus!
