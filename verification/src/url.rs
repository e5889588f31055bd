//! Base-URL normalisation: splitting off the query or fragment, trimming
//! trailing slashes and known endpoint suffixes, appending path segments and
//! query pairs, and percent-encoding.
use vstd::prelude::*;
use vstd::string::StringSliceAdditionalSpecFns;
use crate::text::{
    chars_of, ends_with, ends_with_vec, find_char_spec, find_char_vec, lemma_find_char, string_from_chars, trim_bounds, trim_end_char, trim_end_char_bound, trim_seq, push_char,
};

verus! {

/// Where the query (`?`) or fragment (`#`) part of a URL begins; the length
/// when there is neither.
pub open spec fn split_index(s: Seq<char>) -> int {
    match (find_char_spec(s, '?'), find_char_spec(s, '#')) {
        (Some(q), Some(f)) => if q < f { q } else { f },
        (Some(q), None) => q,
        (None, Some(f)) => f,
        (None, None) => s.len() as int,
    }
}

pub proof fn lemma_find_char_bounds(s: Seq<char>, c: char)
    ensures
        find_char_spec(s, c) matches Some(i) ==> 0 <= i < s.len() && s[i] == c,
{
    lemma_find_char(s, c);
}

pub proof fn lemma_split_index_bounds(s: Seq<char>)
    ensures
        0 <= split_index(s) <= s.len(),
{
    lemma_find_char_bounds(s, '?');
    lemma_find_char_bounds(s, '#');
}

/// The part of a URL before its query or fragment.
pub open spec fn url_base(s: Seq<char>) -> Seq<char> {
    s.subrange(0, split_index(s))
}

/// The query or fragment part of a URL (empty when there is none).
pub open spec fn url_suffix(s: Seq<char>) -> Seq<char> {
    s.subrange(split_index(s), s.len() as int)
}

/// Strips the first suffix of `suffixes` that `b` ends with, then any
/// trailing slashes that this leaves.
pub open spec fn strip_first_suffix(b: Seq<char>, suffixes: Seq<Seq<char>>) -> Seq<char>
    decreases suffixes.len(),
{
    if suffixes.len() == 0 {
        b
    } else if ends_with(b, suffixes[0]) {
        trim_end_char(b.subrange(0, b.len() - suffixes[0].len()), '/')
    } else {
        strip_first_suffix(b, suffixes.drop_first())
    }
}

/// A trimmed URL without trailing slashes and without the first matching
/// endpoint suffix; its query or fragment is kept.
pub open spec fn trim_url_path_suffix_spec(s: Seq<char>, suffixes: Seq<Seq<char>>) -> Seq<char> {
    let t = trim_seq(s);
    strip_first_suffix(trim_end_char(url_base(t), '/'), suffixes) + url_suffix(t)
}

/// Whether `b` ends with one of `suffixes`.
pub open spec fn ends_with_any(b: Seq<char>, suffixes: Seq<Seq<char>>) -> bool {
    exists|i: int| 0 <= i < suffixes.len() && ends_with(b, suffixes[i])
}

/// The URL with `segment` appended to its path, unless the path already ends
/// with one of `terminal_suffixes`; trailing slashes of the path are dropped.
pub open spec fn append_path_segment_spec(
    s: Seq<char>,
    segment: Seq<char>,
    terminal_suffixes: Seq<Seq<char>>,
) -> Seq<char> {
    let base = trim_end_char(url_base(s), '/');
    if ends_with_any(base, terminal_suffixes) {
        base + url_suffix(s)
    } else {
        base + seq!['/'] + segment + url_suffix(s)
    }
}

/// The views of a list of texts.
pub open spec fn texts_view(v: Seq<&str>) -> Seq<Seq<char>> {
    v.map_values(|x: &str| x@)
}

/// A copy of `v[a..b]`.
pub fn subvec(v: &Vec<char>, a: usize, b: usize) -> (r: Vec<char>)
    requires
        a <= b <= v@.len(),
    ensures
        r@ == v@.subrange(a as int, b as int),
{
    let mut r: Vec<char> = Vec::new();
    let mut i: usize = a;
    while i < b
        invariant
            a <= i <= b <= v@.len(),
            r@ == v@.subrange(a as int, i as int),
        decreases b - i,
    {
        r.push(v[i]);
        i = i + 1;
        assert(r@ =~= v@.subrange(a as int, i as int));
    }
    r
}

/// Appends `w` to `v`.
pub fn extend_chars(v: &mut Vec<char>, w: &Vec<char>)
    ensures
        final(v)@ == old(v)@ + w@,
{
    let mut i: usize = 0;
    let ghost start = v@;
    while i < w.len()
        invariant
            i <= w@.len(),
            v@ == start + w@.subrange(0, i as int),
        decreases w@.len() - i,
    {
        v.push(w[i]);
        i = i + 1;
        assert(v@ =~= start + w@.subrange(0, i as int));
    }
    assert(w@.subrange(0, w@.len() as int) =~= w@);
}

/// Exec twin of `split_index`.
pub fn split_index_of(v: &Vec<char>) -> (i: usize)
    ensures
        i == split_index(v@),
        i <= v@.len(),
{
    proof {
        lemma_split_index_bounds(v@);
    }
    match (find_char_vec(v, '?'), find_char_vec(v, '#')) {
        (Some(q), Some(f)) => if q < f { q } else { f },
        (Some(q), None) => q,
        (None, Some(f)) => f,
        (None, None) => v.len(),
    }
}

/// Splits a URL into the part before its query or fragment and the rest.
pub fn split_url_suffix(value: &str) -> (r: (String, String))
    ensures
        r.0@ == url_base(value@),
        r.1@ == url_suffix(value@),
{
    let v = chars_of(value);
    let i = split_index_of(&v);
    let a = subvec(&v, 0, i);
    let b = subvec(&v, i, v.len());
    (string_from_chars(&a), string_from_chars(&b))
}

/// Length of `strip_first_suffix(t[..end0], suffixes)`, which is a prefix of `t`.
fn strip_first_suffix_end(t: &Vec<char>, end0: usize, suffixes: &[&str]) -> (end: usize)
    requires
        end0 <= t@.len(),
    ensures
        end <= end0,
        t@.subrange(0, end as int) == strip_first_suffix(t@.subrange(0, end0 as int), texts_view(suffixes@)),
{
    let ghost base0 = t@.subrange(0, end0 as int);
    let ghost sufs = texts_view(suffixes@);
    let bv = subvec(t, 0, end0);
    assert(sufs.subrange(0, sufs.len() as int) =~= sufs);
    let mut k: usize = 0;
    while k < suffixes.len()
        invariant
            k <= suffixes@.len(),
            sufs == texts_view(suffixes@),
            bv@ == base0,
            base0 == t@.subrange(0, end0 as int),
            end0 <= t@.len(),
            strip_first_suffix(base0, sufs) == strip_first_suffix(base0, sufs.subrange(k as int, sufs.len() as int)),
        decreases suffixes@.len() - k,
    {
        let sv = chars_of(suffixes[k]);
        let ghost rest = sufs.subrange(k as int, sufs.len() as int);
        assert(rest[0] == sv@);
        assert(rest.drop_first() =~= sufs.subrange(k + 1, sufs.len() as int));
        if ends_with_vec(&bv, &sv) {
            let end = trim_end_char_bound(t, end0 - sv.len(), '/');
            assert(base0.subrange(0, base0.len() - sv@.len()) =~= t@.subrange(0, end0 - sv@.len()));
            return end;
        }
        k = k + 1;
    }
    assert(sufs.subrange(k as int, sufs.len() as int).len() == 0);
    end0
}

/// Trims `value`, strips trailing slashes and the first matching suffix.
pub fn trim_url_path_suffix(value: &str, suffixes: &[&str]) -> (r: String)
    ensures
        r@ == trim_url_path_suffix_spec(value@, texts_view(suffixes@)),
{
    let v = chars_of(value);
    let (a, b) = trim_bounds(&v);
    let t = subvec(&v, a, b);
    let sp = split_index_of(&t);
    let end0 = trim_end_char_bound(&t, sp, '/');
    let end = strip_first_suffix_end(&t, end0, suffixes);
    let mut out = subvec(&t, 0, end);
    let q = subvec(&t, sp, t.len());
    extend_chars(&mut out, &q);
    string_from_chars(&out)
}

/// Appends `segment` to the URL path unless the path already ends with one of
/// `terminal_suffixes`.
pub fn append_path_segment(value: &str, segment: &str, terminal_suffixes: &[&str]) -> (r: String)
    ensures
        r@ == append_path_segment_spec(value@, segment@, texts_view(terminal_suffixes@)),
{
    let v = chars_of(value);
    let sp = split_index_of(&v);
    let end = trim_end_char_bound(&v, sp, '/');
    let mut out = subvec(&v, 0, end);
    let ghost base = out@;
    let ghost sufs = texts_view(terminal_suffixes@);
    let mut k: usize = 0;
    let mut found = false;
    while k < terminal_suffixes.len() && !found
        invariant
            k <= terminal_suffixes@.len(),
            sufs == texts_view(terminal_suffixes@),
            out@ == base,
            !found ==> forall|j: int| 0 <= j < k ==> !ends_with(base, #[trigger] sufs[j]),
            found ==> ends_with_any(base, sufs),
        decreases terminal_suffixes@.len() - k,
    {
        let sv = chars_of(terminal_suffixes[k]);
        assert(sufs[k as int] == sv@);
        if ends_with_vec(&out, &sv) {
            found = true;
        }
        k = k + 1;
    }
    let q = subvec(&v, sp, v.len());
    if !found {
        out.push('/');
        let sg = chars_of(segment);
        extend_chars(&mut out, &sg);
    }
    extend_chars(&mut out, &q);
    proof {
        if !found {
            assert(!ends_with_any(base, sufs));
        }
    }
    string_from_chars(&out)
}

/// `append_path_segment` with no terminal suffixes.
pub fn append_url_path_segment(value: &str, segment: &str) -> (r: String)
    ensures
        r@ == append_path_segment_spec(value@, segment@, Seq::<Seq<char>>::empty()),
{
    let none: [&str; 0] = [];
    let r = append_path_segment(value, segment, &none);
    assert(texts_view(none@) =~= Seq::<Seq<char>>::empty());
    r
}

/// Characters kept as they are by percent-encoding (RFC 3986 unreserved).
pub open spec fn is_unreserved_byte(b: u8) -> bool {
    (65 <= b <= 90) || (97 <= b <= 122) || (48 <= b <= 57) || b == 45 || b == 46 || b == 95
        || b == 126
}

/// Upper-case hexadecimal digit for a value below 16.
pub open spec fn hex_digit_upper(n: u8) -> char {
    if n < 10 {
        ((48 + n) as u8) as char
    } else {
        ((55 + n) as u8) as char
    }
}

/// The encoding of one byte.
pub open spec fn percent_encode_byte(b: u8, space_plus: bool) -> Seq<char> {
    if is_unreserved_byte(b) {
        seq![b as char]
    } else if space_plus && b == 32 {
        seq!['+']
    } else {
        seq!['%', hex_digit_upper(b / 16), hex_digit_upper(b % 16)]
    }
}

/// Percent-encoding of a byte sequence.
pub open spec fn percent_encode_bytes(bytes: Seq<u8>, space_plus: bool) -> Seq<char>
    decreases bytes.len(),
{
    if bytes.len() == 0 {
        Seq::empty()
    } else {
        percent_encode_bytes(bytes.drop_last(), space_plus) + percent_encode_byte(bytes.last(), space_plus)
    }
}

fn hex_upper(n: u8) -> (c: char)
    requires
        n < 16,
    ensures
        c == hex_digit_upper(n),
{
    if n < 10 {
        (48 + n) as char
    } else {
        (55 + n) as char
    }
}

/// Percent-encodes the UTF-8 bytes of `value`; spaces become `+` when
/// `space_plus` holds.
pub fn percent_encode(value: &str, space_plus: bool) -> (r: String)
    ensures
        r@ == percent_encode_bytes(value.spec_bytes(), space_plus),
{
    let bytes = value.as_bytes();
    let mut encoded = String::new();
    let mut i: usize = 0;
    while i < bytes.len()
        invariant
            bytes@ == value.spec_bytes(),
            i <= bytes@.len(),
            encoded@ == percent_encode_bytes(bytes@.subrange(0, i as int), space_plus),
        decreases bytes@.len() - i,
    {
        let byte = bytes[i];
        let keep = (65 <= byte && byte <= 90) || (97 <= byte && byte <= 122) || (48 <= byte && byte
            <= 57) || byte == 45 || byte == 46 || byte == 95 || byte == 126;
        if keep {
            push_char(&mut encoded, byte as char);
        } else if space_plus && byte == 32 {
            push_char(&mut encoded, '+');
        } else {
            push_char(&mut encoded, '%');
            push_char(&mut encoded, hex_upper(byte / 16));
            push_char(&mut encoded, hex_upper(byte % 16));
        }
        proof {
            let pre = bytes@.subrange(0, i + 1);
            assert(pre.drop_last() =~= bytes@.subrange(0, i as int));
            assert(pre.last() == byte);
        }
        i = i + 1;
        assert(encoded@ =~= percent_encode_bytes(bytes@.subrange(0, i as int), space_plus));
    }
    assert(bytes@.subrange(0, bytes@.len() as int) =~= bytes@);
    encoded
}

pub fn percent_encode_path_segment(value: &str) -> (r: String)
    ensures
        r@ == percent_encode_bytes(value.spec_bytes(), false),
{
    percent_encode(value, false)
}

pub fn percent_encode_query_value(value: &str) -> (r: String)
    ensures
        r@ == percent_encode_bytes(value.spec_bytes(), true),
{
    percent_encode(value, true)
}

/// The URL with `key=value` added to its query (before any fragment).
pub open spec fn append_query_pair_spec(url: Seq<char>, key: Seq<char>, value_encoded: Seq<char>) -> Seq<char> {
    let cut = match find_char_spec(url, '#') {
        Some(i) => i,
        None => url.len() as int,
    };
    let head = url.subrange(0, cut);
    let separator = if find_char_spec(head, '?') is Some { seq!['&'] } else { seq!['?'] };
    head + separator + key + seq!['='] + value_encoded + url.subrange(cut, url.len() as int)
}

/// Adds a query pair to a URL, percent-encoding the value.
pub fn append_query_pair(url: &str, key: &str, value: &str) -> (r: String)
    ensures
        r@ == append_query_pair_spec(url@, key@, percent_encode_bytes(value.spec_bytes(), true)),
{
    let v = chars_of(url);
    proof {
        lemma_find_char_bounds(v@, '#');
    }
    let cut = match find_char_vec(&v, '#') {
        Some(i) => i,
        None => v.len(),
    };
    let mut out = subvec(&v, 0, cut);
    let ghost head = out@;
    let has_query = find_char_vec(&out, '?').is_some();
    let ghost sep = if has_query { seq!['&'] } else { seq!['?'] };
    if has_query {
        out.push('&');
    } else {
        out.push('?');
    }
    assert(out@ =~= head + sep);
    let kv = chars_of(key);
    extend_chars(&mut out, &kv);
    out.push('=');
    let enc = percent_encode_query_value(value);
    let ev = chars_of(enc.as_str());
    extend_chars(&mut out, &ev);
    let tail = subvec(&v, cut, v.len());
    extend_chars(&mut out, &tail);
    assert(out@ =~= head + sep + key@ + seq!['='] + enc@ + v@.subrange(cut as int, v@.len() as int));
    string_from_chars(&out)
}

} // verus!
