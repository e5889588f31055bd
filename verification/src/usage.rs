//! Token usage: counts reported by providers, how two reports add up, and
//! how a stream's successive usage reports merge into one.
use vstd::prelude::*;
use crate::json::{Json, JsonView};

verus! {

/// Tokens a generation used.
#[derive(Debug)]
pub struct Usage {
    pub input_tokens: u64,
    pub output_tokens: u64,
    pub total_tokens: u64,
    pub reasoning_tokens: Option<u64>,
    pub cache_read_tokens: Option<u64>,
    pub cache_write_tokens: Option<u64>,
    pub raw: Option<Json>,
}

/// Nothing used.
pub open spec fn empty_usage() -> Usage {
    Usage {
        input_tokens: 0,
        output_tokens: 0,
        total_tokens: 0,
        reasoning_tokens: None,
        cache_read_tokens: None,
        cache_write_tokens: None,
        raw: None,
    }
}

/// The usage with a missing total filled in as input plus output.
pub open spec fn normalized_spec(u: Usage) -> Usage {
    if u.total_tokens == 0 {
        Usage { total_tokens: (u.input_tokens + u.output_tokens) as u64, ..u }
    } else {
        u
    }
}

/// Whether a missing total can be filled in without overflow.
pub open spec fn normalizable(u: Usage) -> bool {
    u.total_tokens == 0 ==> u.input_tokens + u.output_tokens <= u64::MAX
}

/// Two optional counts summed; absent when both are.
pub open spec fn sum_optional_spec(a: Option<u64>, b: Option<u64>) -> Option<u64> {
    match (a, b) {
        (None, None) => None,
        _ => Some(
            (match a {
                Some(x) => x as int,
                None => 0,
            } + match b {
                Some(y) => y as int,
                None => 0,
            }) as u64,
        ),
    }
}

pub open spec fn opt_count(a: Option<u64>) -> int {
    match a {
        Some(x) => x as int,
        None => 0,
    }
}

/// The usage of two generations together, before the total is filled in.
pub open spec fn usage_sum_raw(a: Usage, b: Usage) -> Usage {
    Usage {
        input_tokens: (a.input_tokens + b.input_tokens) as u64,
        output_tokens: (a.output_tokens + b.output_tokens) as u64,
        total_tokens: (a.total_tokens + b.total_tokens) as u64,
        reasoning_tokens: sum_optional_spec(a.reasoning_tokens, b.reasoning_tokens),
        cache_read_tokens: sum_optional_spec(a.cache_read_tokens, b.cache_read_tokens),
        cache_write_tokens: sum_optional_spec(a.cache_write_tokens, b.cache_write_tokens),
        raw: match a.raw {
            Some(r) => Some(r),
            None => b.raw,
        },
    }
}

/// Whether adding two usages stays within the counters.
pub open spec fn addable(a: Usage, b: Usage) -> bool {
    &&& a.input_tokens + b.input_tokens <= u64::MAX
    &&& a.output_tokens + b.output_tokens <= u64::MAX
    &&& a.total_tokens + b.total_tokens <= u64::MAX
    &&& a.input_tokens + b.input_tokens + a.output_tokens + b.output_tokens <= u64::MAX
    &&& opt_count(a.reasoning_tokens) + opt_count(b.reasoning_tokens) <= u64::MAX
    &&& opt_count(a.cache_read_tokens) + opt_count(b.cache_read_tokens) <= u64::MAX
    &&& opt_count(a.cache_write_tokens) + opt_count(b.cache_write_tokens) <= u64::MAX
}

/// Two optional counts summed; absent when both are.
pub fn sum_optional_tokens(left: Option<u64>, right: Option<u64>) -> (r: Option<u64>)
    requires
        opt_count(left) + opt_count(right) <= u64::MAX,
    ensures
        r == sum_optional_spec(left, right),
{
    match (left, right) {
        (None, None) => None,
        _ => {
            let a = match left {
                Some(x) => x,
                None => 0,
            };
            let b = match right {
                Some(y) => y,
                None => 0,
            };
            Some(a + b)
        },
    }
}

impl Usage {
    /// Nothing used.
    pub fn new() -> (r: Self)
        ensures
            r == empty_usage(),
    {
        Usage {
            input_tokens: 0,
            output_tokens: 0,
            total_tokens: 0,
            reasoning_tokens: None,
            cache_read_tokens: None,
            cache_write_tokens: None,
            raw: None,
        }
    }

    /// Fills in a missing total as input plus output.
    pub fn normalized(self) -> (r: Self)
        requires
            normalizable(self),
        ensures
            r == normalized_spec(self),
    {
        let mut u = self;
        if u.total_tokens == 0 {
            u.total_tokens = u.input_tokens + u.output_tokens;
        }
        u
    }

    /// The usage of two generations together: counts add, absent optional
    /// counts stay absent, the first raw report wins, and the total is filled
    /// in when both were missing (`Usage + Usage`).
    pub fn combined(self, rhs: Self) -> (r: Self)
        requires
            addable(self, rhs),
        ensures
            r == normalized_spec(usage_sum_raw(self, rhs)),
    {
        let raw = match self.raw {
            Some(r) => Some(r),
            None => rhs.raw,
        };
        let u = Usage {
            input_tokens: self.input_tokens + rhs.input_tokens,
            output_tokens: self.output_tokens + rhs.output_tokens,
            total_tokens: self.total_tokens + rhs.total_tokens,
            reasoning_tokens: sum_optional_tokens(self.reasoning_tokens, rhs.reasoning_tokens),
            cache_read_tokens: sum_optional_tokens(self.cache_read_tokens, rhs.cache_read_tokens),
            cache_write_tokens: sum_optional_tokens(self.cache_write_tokens, rhs.cache_write_tokens),
            raw,
        };
        u.normalized()
    }
}

impl Default for Usage {
    fn default() -> (r: Self)
        ensures
            r == empty_usage(),
    {
        Usage::new()
    }
}

/// Filling in the total twice changes nothing more than doing it once.
pub proof fn lemma_normalized_idempotent(u: Usage)
    requires
        normalizable(u),
    ensures
        normalizable(normalized_spec(u)),
        normalized_spec(normalized_spec(u)) == normalized_spec(u),
{
}

/// After filling in, the total is input plus output unless the report gave one.
pub proof fn lemma_normalized_total(u: Usage)
    requires
        normalizable(u),
    ensures
        normalized_spec(u).total_tokens == if u.total_tokens == 0 {
            u.input_tokens + u.output_tokens
        } else {
            u.total_tokens as int
        },
        normalized_spec(u).input_tokens == u.input_tokens,
        normalized_spec(u).output_tokens == u.output_tokens,
{
}

// ----- merging the reports of a stream -----
/// Whether a usage report says anything.
pub open spec fn has_observations(u: Usage) -> bool {
    u.input_tokens != 0 || u.output_tokens != 0 || u.total_tokens != 0 || u.reasoning_tokens is Some
        || u.cache_read_tokens is Some || u.cache_write_tokens is Some || u.raw is Some
}

pub open spec fn max_u64(a: u64, b: u64) -> u64 {
    if a >= b {
        a
    } else {
        b
    }
}

/// A count merged with a later report of it: an absent (zero) count yields
/// to the other, otherwise the larger wins.
pub open spec fn merge_count_spec(current: u64, update: u64) -> u64 {
    if update == 0 {
        current
    } else if current == 0 {
        update
    } else {
        max_u64(current, update)
    }
}

pub open spec fn merge_optional_spec(current: Option<u64>, update: Option<u64>) -> Option<u64> {
    match (current, update) {
        (None, None) => None,
        (Some(c), None) => Some(c),
        (None, Some(u)) => Some(u),
        (Some(c), Some(u)) => Some(max_u64(c, u)),
    }
}

/// A stream's usage so far, merged with a new report.
pub open spec fn merge_stream_usage_spec(current: Option<Usage>, update: Usage) -> Option<Usage> {
    if !has_observations(update) {
        match current {
            Some(c) => Some(normalized_spec(c)),
            None => None,
        }
    } else {
        let upd = normalized_spec(update);
        match current {
            None => Some(upd),
            Some(c0) => {
                let cur = normalized_spec(c0);
                let input = merge_count_spec(cur.input_tokens, upd.input_tokens);
                let output = merge_count_spec(cur.output_tokens, upd.output_tokens);
                Some(
                    Usage {
                        input_tokens: input,
                        output_tokens: output,
                        total_tokens: max_u64(
                            max_u64((input + output) as u64, cur.total_tokens),
                            upd.total_tokens,
                        ),
                        reasoning_tokens: merge_optional_spec(cur.reasoning_tokens, upd.reasoning_tokens),
                        cache_read_tokens: merge_optional_spec(cur.cache_read_tokens, upd.cache_read_tokens),
                        cache_write_tokens: merge_optional_spec(cur.cache_write_tokens, upd.cache_write_tokens),
                        raw: match upd.raw {
                            Some(r) => Some(r),
                            None => cur.raw,
                        },
                    },
                )
            },
        }
    }
}

/// Whether merging stays within the counters.
pub open spec fn mergeable(current: Option<Usage>, update: Usage) -> bool {
    &&& normalizable(update)
    &&& (current matches Some(c) ==> normalizable(c))
    &&& (current matches Some(c) ==> ({
        let cur = normalized_spec(c);
        let upd = normalized_spec(update);
        merge_count_spec(cur.input_tokens, upd.input_tokens) + merge_count_spec(
            cur.output_tokens,
            upd.output_tokens,
        ) <= u64::MAX
    }))
}

/// Whether a usage report says anything.
pub fn usage_has_observations(usage: &Usage) -> (r: bool)
    ensures
        r == has_observations(*usage),
{
    usage.input_tokens != 0 || usage.output_tokens != 0 || usage.total_tokens != 0
        || usage.reasoning_tokens.is_some() || usage.cache_read_tokens.is_some()
        || usage.cache_write_tokens.is_some() || usage.raw.is_some()
}

/// A count merged with a later report of it.
pub fn merge_token_count(current: u64, update: u64) -> (r: u64)
    ensures
        r == merge_count_spec(current, update),
{
    if update == 0 {
        current
    } else if current == 0 {
        update
    } else if current >= update {
        current
    } else {
        update
    }
}

/// An optional count merged with a later report of it.
pub fn merge_optional_token_count(current: Option<u64>, update: Option<u64>) -> (r: Option<u64>)
    ensures
        r == merge_optional_spec(current, update),
{
    match (current, update) {
        (None, None) => None,
        (Some(c), None) => Some(c),
        (None, Some(u)) => Some(u),
        (Some(c), Some(u)) => Some(if c >= u {
            c
        } else {
            u
        }),
    }
}

/// A stream's usage so far, merged with a new report: a report that says
/// nothing keeps what is known, a first report is taken as it is, and
/// otherwise each count keeps the larger value and the newest raw report wins.
pub fn merge_stream_usage(current: Option<Usage>, update: Usage) -> (r: Option<Usage>)
    requires
        mergeable(current, update),
    ensures
        r == merge_stream_usage_spec(current, update),
{
    if !usage_has_observations(&update) {
        return match current {
            Some(c) => Some(c.normalized()),
            None => None,
        };
    }
    let update = update.normalized();
    let current = match current {
        Some(c) => c.normalized(),
        None => return Some(update),
    };
    let input_tokens = merge_token_count(current.input_tokens, update.input_tokens);
    let output_tokens = merge_token_count(current.output_tokens, update.output_tokens);
    let sum = input_tokens + output_tokens;
    let t1 = if sum >= current.total_tokens {
        sum
    } else {
        current.total_tokens
    };
    let total_tokens = if t1 >= update.total_tokens {
        t1
    } else {
        update.total_tokens
    };
    let raw = match update.raw {
        Some(r) => Some(r),
        None => current.raw,
    };
    Some(
        Usage {
            input_tokens,
            output_tokens,
            total_tokens,
            reasoning_tokens: merge_optional_token_count(current.reasoning_tokens, update.reasoning_tokens),
            cache_read_tokens: merge_optional_token_count(current.cache_read_tokens, update.cache_read_tokens),
            cache_write_tokens: merge_optional_token_count(current.cache_write_tokens, update.cache_write_tokens),
            raw,
        },
    )
}

/// Merging counts takes the larger one: zero is no report.
pub proof fn lemma_merge_count_is_max(a: u64, b: u64)
    ensures
        merge_count_spec(a, b) == max_u64(a, b),
        merge_count_spec(a, b) == merge_count_spec(b, a),
        merge_count_spec(a, a) == a,
{
}

/// Merging a report into a stream's usage never lowers a count that was known.
pub proof fn lemma_merge_stream_usage_monotone(current: Usage, update: Usage)
    requires
        mergeable(Some(current), update),
    ensures
        merge_stream_usage_spec(Some(current), update) matches Some(m) && m.input_tokens
            >= current.input_tokens && m.output_tokens >= current.output_tokens && m.total_tokens
            >= normalized_spec(current).total_tokens && m.input_tokens >= (if has_observations(update) {
            update.input_tokens
        } else {
            0
        }),
{
}

/// The counts of a usage report, and its raw report as a value.
pub struct UsageView {
    pub input_tokens: u64,
    pub output_tokens: u64,
    pub total_tokens: u64,
    pub reasoning_tokens: Option<u64>,
    pub cache_read_tokens: Option<u64>,
    pub cache_write_tokens: Option<u64>,
    pub raw: Option<JsonView>,
}

impl View for Usage {
    type V = UsageView;

    open spec fn view(&self) -> UsageView {
        UsageView {
            input_tokens: self.input_tokens,
            output_tokens: self.output_tokens,
            total_tokens: self.total_tokens,
            reasoning_tokens: self.reasoning_tokens,
            cache_read_tokens: self.cache_read_tokens,
            cache_write_tokens: self.cache_write_tokens,
            raw: match self.raw {
                Some(r) => Some(r@),
                None => None,
            },
        }
    }
}

} // verus!
