//! Completing a truncated JSON text so that a partial structured output can
//! be parsed while it is still streaming.
use vstd::prelude::*;
use crate::text::{chars_of, is_ws, trim_end_seq, lemma_trailing_ws, char_is_ws, opt_seq, string_from_chars};

verus! {

/// What the scan of a JSON prefix has seen so far.
pub struct ScanState {
    /// The brackets that are open, innermost last.
    pub stack: Seq<char>,
    pub in_string: bool,
    /// The previous character in a string was an unescaped backslash.
    pub escaped: bool,
    /// A closing bracket did not match.
    pub failed: bool,
}

pub open spec fn scan_init() -> ScanState {
    ScanState { stack: Seq::empty(), in_string: false, escaped: false, failed: false }
}

/// One character of the scan.
pub open spec fn scan_step(st: ScanState, ch: char) -> ScanState {
    if st.failed {
        st
    } else if st.in_string {
        if st.escaped {
            ScanState { escaped: false, ..st }
        } else if ch == '\\' {
            ScanState { escaped: true, ..st }
        } else if ch == '"' {
            ScanState { in_string: false, ..st }
        } else {
            st
        }
    } else if ch == '"' {
        ScanState { in_string: true, ..st }
    } else if ch == '{' || ch == '[' {
        ScanState { stack: st.stack.push(ch), ..st }
    } else if ch == '}' || ch == ']' {
        let opener = if ch == '}' { '{' } else { '[' };
        if st.stack.len() > 0 && st.stack.last() == opener {
            ScanState { stack: st.stack.drop_last(), ..st }
        } else {
            ScanState { failed: true, ..st }
        }
    } else {
        st
    }
}

/// The state after scanning `s`.
pub open spec fn scan(s: Seq<char>) -> ScanState
    decreases s.len(),
{
    if s.len() == 0 {
        scan_init()
    } else {
        scan_step(scan(s.drop_last()), s.last())
    }
}

/// Drops trailing `,` and `:` together with the whitespace before them.
pub open spec fn strip_separators(s: Seq<char>) -> Seq<char>
    decreases s.len(),
{
    if s.len() > 0 && (s.last() == ',' || s.last() == ':') {
        proof {
            crate::text::lemma_trailing_ws_le(s.drop_last());
        }
        strip_separators(trim_end_seq(s.drop_last()))
    } else {
        s
    }
}

pub open spec fn closer(opener: char) -> char {
    if opener == '{' {
        '}'
    } else {
        ']'
    }
}

/// The closing brackets for the open ones, innermost first.
pub open spec fn closers(stack: Seq<char>) -> Seq<char> {
    Seq::new(stack.len(), |i: int| closer(stack[stack.len() - 1 - i]))
}

/// The completed JSON text for a prefix, or `None` when the prefix is blank
/// or closes a bracket that it did not open.
pub open spec fn repair_spec(prefix: Seq<char>) -> Option<Seq<char>> {
    let c0 = trim_end_seq(prefix);
    if c0.len() == 0 {
        None
    } else {
        let c = strip_separators(c0);
        let st = scan(c);
        if st.failed {
            None
        } else {
            let c1 = if st.in_string {
                (if st.escaped && c.len() > 0 && c.last() == '\\' { c.drop_last() } else { c }).push('"')
            } else {
                c
            };
            Some(c1 + closers(st.stack))
        }
    }
}

pub proof fn lemma_scan_failed_absorbs(s: Seq<char>, i: int)
    requires
        0 <= i <= s.len(),
        scan(s.subrange(0, i)).failed,
    ensures
        scan(s).failed,
    decreases s.len() - i,
{
    if i < s.len() {
        let t = s.subrange(0, i + 1);
        assert(t.drop_last() =~= s.subrange(0, i));
        lemma_scan_failed_absorbs(s, i + 1);
    } else {
        assert(s.subrange(0, i) =~= s);
    }
}

/// Length of `trim_end_seq(v[..end])`.
fn trim_end_bound(v: &Vec<char>, end: usize) -> (j: usize)
    requires
        end <= v@.len(),
    ensures
        j <= end,
        v@.subrange(0, j as int) == trim_end_seq(v@.subrange(0, end as int)),
{
    let mut j: usize = end;
    while j > 0 && char_is_ws(v[j - 1])
        invariant
            j <= end <= v@.len(),
            forall|k: int| j <= k < end ==> is_ws(#[trigger] v@[k]),
        decreases j,
    {
        j = j - 1;
    }
    proof {
        let s = v@.subrange(0, end as int);
        assert forall|k: int| j <= k < s.len() implies is_ws(#[trigger] s[k]) by {
            assert(s[k] == v@[k]);
        }
        if j > 0 {
            assert(s[j - 1] == v@[j - 1]);
        }
        lemma_trailing_ws(s, j as int);
        assert(s.subrange(0, j as int) =~= v@.subrange(0, j as int));
    }
    j
}

/// Completes a truncated JSON text: trailing separators are dropped, an open
/// string is closed and open brackets are closed innermost first.
pub fn repair_json_prefix(prefix: &str) -> (r: Option<String>)
    ensures
        opt_seq(r) == repair_spec(prefix@),
{
    let v = chars_of(prefix);
    let mut j = trim_end_bound(&v, v.len());
    assert(v@.subrange(0, v@.len() as int) =~= v@);
    if j == 0 {
        return None;
    }
    let ghost c0 = v@.subrange(0, j as int);
    while j > 0 && (v[j - 1] == ',' || v[j - 1] == ':')
        invariant
            j <= v@.len(),
            strip_separators(c0) == strip_separators(v@.subrange(0, j as int)),
        decreases j,
    {
        proof {
            let s = v@.subrange(0, j as int);
            assert(s.drop_last() =~= v@.subrange(0, j - 1));
        }
        j = trim_end_bound(&v, j - 1);
    }
    let ghost c = v@.subrange(0, j as int);
    assert(strip_separators(c) == c);
    let mut stack: Vec<char> = Vec::new();
    let mut in_string = false;
    let mut escaped = false;
    let mut i: usize = 0;
    while i < j
        invariant
            i <= j <= v@.len(),
            c == v@.subrange(0, j as int),
            strip_separators(trim_end_seq(prefix@)) == c,
            trim_end_seq(prefix@).len() > 0,
            ({
                let st = scan(c.subrange(0, i as int));
                &&& !st.failed
                &&& st.stack == stack@
                &&& st.in_string == in_string
                &&& st.escaped == escaped
            }),
        decreases j - i,
    {
        let ch = v[i];
        let ghost pre = c.subrange(0, i + 1);
        assert(pre.drop_last() =~= c.subrange(0, i as int));
        assert(pre.last() == ch);
        if in_string {
            if escaped {
                escaped = false;
            } else if ch == '\\' {
                escaped = true;
            } else if ch == '"' {
                in_string = false;
            }
        } else if ch == '"' {
            in_string = true;
        } else if ch == '{' || ch == '[' {
            stack.push(ch);
        } else if ch == '}' || ch == ']' {
            let opener = if ch == '}' { '{' } else { '[' };
            let n = stack.len();
            if n > 0 && stack[n - 1] == opener {
                stack.pop();
            } else {
                proof {
                    lemma_scan_failed_absorbs(c, i + 1);
                }
                return None;
            }
        }
        i = i + 1;
    }
    assert(c.subrange(0, j as int) =~= c);
    let mut out: Vec<char> = Vec::new();
    let mut k: usize = 0;
    while k < j
        invariant
            k <= j <= v@.len(),
            out@ == v@.subrange(0, k as int),
        decreases j - k,
    {
        out.push(v[k]);
        k = k + 1;
        assert(out@ =~= v@.subrange(0, k as int));
    }
    if in_string {
        let n = out.len();
        if escaped && n > 0 && out[n - 1] == '\\' {
            out.pop();
        }
        out.push('"');
    }
    let ghost c1 = out@;
    let mut m: usize = stack.len();
    while m > 0
        invariant
            m <= stack@.len(),
            out@ == c1 + closers(stack@).subrange(0, stack@.len() - m),
        decreases m,
    {
        let opener = stack[m - 1];
        let close = if opener == '{' { '}' } else { ']' };
        out.push(close);
        proof {
            let cl = closers(stack@);
            assert(cl[stack@.len() - m] == close);
            assert(cl.subrange(0, stack@.len() - m + 1) =~= cl.subrange(0, stack@.len() - m).push(close));
        }
        m = m - 1;
    }
    assert(closers(stack@).subrange(0, stack@.len() as int) =~= closers(stack@));
    Some(string_from_chars(&out))
}

} // verus!
