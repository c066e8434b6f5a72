use vstd::prelude::*;

verus! {

/// Configuration for when distillation should be triggered.
#[derive(Debug, Clone, PartialEq, Eq, Structural)]
pub struct DistillationConfig {
    /// Minimum number of corrections required before distillation can run.
    pub min_corrections: usize,
    /// Optional: maximum time since last distillation before triggering (seconds).
    pub max_interval_secs: Option<u64>,
    /// Optional: minimum correction diversity (unique tile_ids) required.
    pub min_diversity: Option<usize>,
}

/// Why a configuration is refused by `validate`.
pub open spec fn config_error(c: DistillationConfig) -> Option<Seq<char>> {
    if c.min_corrections == 0 {
        Some("min_corrections must be > 0"@)
    } else if c.max_interval_secs == Some(0u64) {
        Some("max_interval_secs must be > 0"@)
    } else if c.min_diversity == Some(0usize) {
        Some("min_diversity must be > 0"@)
    } else {
        None
    }
}

/// A configuration is valid when every threshold that is set is positive.
pub open spec fn config_is_valid(c: DistillationConfig) -> bool {
    &&& c.min_corrections > 0
    &&& (c.max_interval_secs matches Some(i) ==> i > 0)
    &&& (c.min_diversity matches Some(d) ==> d > 0)
}

impl DistillationConfig {
    pub fn new(min_corrections: usize) -> (c: Self)
        ensures
            c.min_corrections == min_corrections,
            c.max_interval_secs is None,
            c.min_diversity is None,
    {
        DistillationConfig { min_corrections, max_interval_secs: None, min_diversity: None }
    }

    pub fn with_interval(self, secs: u64) -> (c: Self)
        ensures
            c == (DistillationConfig { max_interval_secs: Some(secs), ..self }),
    {
        let mut s = self;
        s.max_interval_secs = Some(secs);
        s
    }

    pub fn with_min_diversity(self, n: usize) -> (c: Self)
        ensures
            c == (DistillationConfig { min_diversity: Some(n), ..self }),
    {
        let mut s = self;
        s.min_diversity = Some(n);
        s
    }

    /// Validate config: min_corrections must be > 0, interval must be > 0 if set,
    /// diversity must be > 0 if set.
    pub fn validate(&self) -> (r: Result<(), String>)
        ensures
            r is Ok <==> config_is_valid(*self),
            r is Ok <==> config_error(*self) is None,
            r matches Err(e) ==> config_error(*self) == Some(e@),
    {
        if self.min_corrections == 0 {
            return Err("min_corrections must be > 0".to_owned());
        }
        if let Some(i) = self.max_interval_secs {
            if i == 0 {
                return Err("max_interval_secs must be > 0".to_owned());
            }
        }
        if let Some(d) = self.min_diversity {
            if d == 0 {
                return Err("min_diversity must be > 0".to_owned());
            }
        }
        Ok(())
    }
}

impl Default for DistillationConfig {
    fn default() -> (c: Self)
        ensures
            c.min_corrections == 50,
            c.max_interval_secs == Some(3600u64),
            c.min_diversity == Some(5usize),
    {
        DistillationConfig { min_corrections: 50, max_interval_secs: Some(3600), min_diversity: Some(5) }
    }
}

} // verus!
