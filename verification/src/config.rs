// config.rs — the settings of correo.toml that the checks read, and the
// order in which a setting is taken: the command line first, then the
// configuration file, then the built-in default.
use vstd::prelude::*;

verus! {

/// `[coinage]`: the corpus of attested words (one per line, TSV first column).
pub struct CoinageCfg {
    pub corpus: Option<String>,
}

/// `[readability]`: the limits of the sentence checks.
pub struct KinoshitaCfg {
    pub max_sentence: Option<usize>,
    pub max_ten: Option<usize>,
}

/// A setting from the command line, else from the configuration, else the default.
pub open spec fn spec_choose(cli: Option<usize>, cfg: Option<usize>, default: usize) -> usize {
    match cli {
        Some(v) => v,
        None => match cfg {
            Some(v) => v,
            None => default,
        },
    }
}

pub fn choose_setting(cli: Option<usize>, cfg: Option<usize>, default: usize) -> (r: usize)
    ensures
        r == spec_choose(cli, cfg, default),
{
    match cli {
        Some(v) => v,
        None => match cfg {
            Some(v) => v,
            None => default,
        },
    }
}

impl KinoshitaCfg {
    /// The sentence-length and comma limits: the command line first, then
    /// this configuration, then 100 characters and 4 commas.
    pub fn limits(&self, max_sentence: Option<usize>, max_ten: Option<usize>) -> (r: (usize, usize))
        ensures
            r.0 == spec_choose(max_sentence, self.max_sentence, 100),
            r.1 == spec_choose(max_ten, self.max_ten, 4),
    {
        (choose_setting(max_sentence, self.max_sentence, 100), choose_setting(max_ten, self.max_ten, 4))
    }
}

/// A command-line setting always wins; the configuration wins over the default.
pub proof fn lemma_setting_priority(cli: Option<usize>, cfg: Option<usize>, default: usize)
    ensures
        cli matches Some(v) ==> spec_choose(cli, cfg, default) == v,
        cli is None ==> (cfg matches Some(w) ==> spec_choose(cli, cfg, default) == w),
        (cli is None && cfg is None) ==> spec_choose(cli, cfg, default) == default,
{
}

} // verus!
