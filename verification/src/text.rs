//! Character classes, trimming, UTF-8 decoding and line splitting used by the
//! name validation and by the parsing of provider command output.
use vstd::prelude::*;
use vstd::utf8::*;
use vstd::string::StringSliceAdditionalSpecFns;
use vstd::string::StrSliceExecFns;
use vstd::string::StringExecFns;

verus! {

/// Unicode `White_Space` property, the set that `char::is_whitespace` uses.
pub open spec fn is_whitespace_spec(c: char) -> bool {
    let v = c as u32;
    ||| 0x09 <= v <= 0x0D
    ||| v == 0x20
    ||| v == 0x85
    ||| v == 0xA0
    ||| v == 0x1680
    ||| 0x2000 <= v <= 0x200A
    ||| v == 0x2028
    ||| v == 0x2029
    ||| v == 0x202F
    ||| v == 0x205F
    ||| v == 0x3000
}

/// Unicode general category `Cc`, the set that `char::is_control` uses.
pub open spec fn is_control_spec(c: char) -> bool {
    let v = c as u32;
    v <= 0x1F || (0x7F <= v <= 0x9F)
}

pub fn is_whitespace(c: char) -> (r: bool)
    ensures
        r == is_whitespace_spec(c),
{
    let v = c as u32;
    (0x09 <= v && v <= 0x0D) || v == 0x20 || v == 0x85 || v == 0xA0 || v == 0x1680 || (0x2000
        <= v && v <= 0x200A) || v == 0x2028 || v == 0x2029 || v == 0x202F || v == 0x205F || v
        == 0x3000
}

pub fn is_control(c: char) -> (r: bool)
    ensures
        r == is_control_spec(c),
{
    let v = c as u32;
    v <= 0x1F || (0x7F <= v && v <= 0x9F)
}

/// `s` without its leading whitespace.
pub open spec fn trim_start_spec(s: Seq<char>) -> Seq<char>
    decreases s.len(),
{
    if s.len() > 0 && is_whitespace_spec(s[0]) {
        trim_start_spec(s.drop_first())
    } else {
        s
    }
}

/// `s` without its trailing whitespace.
pub open spec fn trim_end_spec(s: Seq<char>) -> Seq<char>
    decreases s.len(),
{
    if s.len() > 0 && is_whitespace_spec(s.last()) {
        trim_end_spec(s.drop_last())
    } else {
        s
    }
}

/// `s` without leading and trailing whitespace, as `str::trim` gives it.
pub open spec fn trim_spec(s: Seq<char>) -> Seq<char> {
    trim_end_spec(trim_start_spec(s))
}

proof fn lemma_trim_start_skips(s: Seq<char>)
    ensures
        exists|k: int| 0 <= k <= s.len() && trim_start_spec(s) == s.skip(k),
        trim_start_spec(s).len() == 0 || !is_whitespace_spec(trim_start_spec(s)[0]),
    decreases s.len(),
{
    if s.len() > 0 && is_whitespace_spec(s[0]) {
        lemma_trim_start_skips(s.drop_first());
        let k = choose|k: int|
            0 <= k <= s.drop_first().len() && trim_start_spec(s.drop_first()) == s.drop_first().skip(
                k,
            );
        assert(s.drop_first().skip(k) =~= s.skip(k + 1));
    } else {
        assert(s.skip(0) =~= s);
    }
}

proof fn lemma_trim_end_takes(s: Seq<char>)
    ensures
        trim_end_spec(s).len() <= s.len(),
        trim_end_spec(s) == s.take(trim_end_spec(s).len() as int),
        trim_end_spec(s).len() == 0 || !is_whitespace_spec(trim_end_spec(s).last()),
    decreases s.len(),
{
    if s.len() > 0 && is_whitespace_spec(s.last()) {
        lemma_trim_end_takes(s.drop_last());
        assert(s.drop_last().take(trim_end_spec(s.drop_last()).len() as int) =~= s.take(
            trim_end_spec(s.drop_last()).len() as int,
        ));
    } else {
        assert(s.take(s.len() as int) =~= s);
    }
}

proof fn lemma_trim_start_drops_whitespace(s: Seq<char>)
    ensures
        exists|k: int|
            0 <= k <= s.len() && trim_start_spec(s) == s.skip(k) && forall|m: int|
                0 <= m < k ==> is_whitespace_spec(#[trigger] s[m]),
    decreases s.len(),
{
    if s.len() > 0 && is_whitespace_spec(s[0]) {
        let rest = s.drop_first();
        lemma_trim_start_drops_whitespace(rest);
        let k = choose|k: int|
            0 <= k <= rest.len() && trim_start_spec(rest) == rest.skip(k) && forall|m: int|
                0 <= m < k ==> is_whitespace_spec(#[trigger] rest[m]);
        assert(rest.skip(k) =~= s.skip(k + 1));
        assert forall|m: int| 0 <= m < k + 1 implies is_whitespace_spec(#[trigger] s[m]) by {
            if m > 0 {
                assert(s[m] == rest[m - 1]);
            }
        }
    } else {
        assert(s.skip(0) =~= s);
    }
}

proof fn lemma_trim_end_drops_whitespace(s: Seq<char>)
    ensures
        forall|m: int| trim_end_spec(s).len() <= m < s.len() ==> is_whitespace_spec(#[trigger] s[m]),
    decreases s.len(),
{
    lemma_trim_end_takes(s);
    if s.len() > 0 && is_whitespace_spec(s.last()) {
        let rest = s.drop_last();
        lemma_trim_end_drops_whitespace(rest);
        assert forall|m: int| trim_end_spec(s).len() <= m < s.len() implies is_whitespace_spec(
            #[trigger] s[m],
        ) by {
            if m < s.len() - 1 {
                assert(s[m] == rest[m]);
            }
        }
    }
}

/// Trimming removes the leading and the trailing whitespace and nothing
/// else: what remains is a contiguous part of the text, everything before
/// and after it is whitespace, and it neither starts nor ends with
/// whitespace.
pub proof fn lemma_trim_removes_outer_whitespace(s: Seq<char>)
    ensures
        exists|i: int, j: int|
            0 <= i <= j <= s.len() && trim_spec(s) == s.subrange(i, j) && (forall|m: int|
                0 <= m < i ==> is_whitespace_spec(#[trigger] s[m])) && (forall|m: int|
                j <= m < s.len() ==> is_whitespace_spec(#[trigger] s[m])),
        trim_spec(s).len() > 0 ==> !is_whitespace_spec(trim_spec(s)[0]) && !is_whitespace_spec(
            trim_spec(s).last(),
        ),
{
    let u = trim_start_spec(s);
    let t = trim_end_spec(u);
    lemma_trim_start_skips(s);
    lemma_trim_start_drops_whitespace(s);
    lemma_trim_end_takes(u);
    lemma_trim_end_drops_whitespace(u);
    let i = choose|k: int|
        0 <= k <= s.len() && trim_start_spec(s) == s.skip(k) && forall|m: int|
            0 <= m < k ==> is_whitespace_spec(#[trigger] s[m]);
    let j = i + t.len();
    assert(t =~= s.subrange(i, j));
    assert forall|m: int| j <= m < s.len() implies is_whitespace_spec(#[trigger] s[m]) by {
        assert(s[m] == u[m - i]);
    }
    if t.len() > 0 {
        assert(t[0] == u[0]);
    }
}

/// Trimming twice is trimming once.
pub proof fn lemma_trim_idempotent(s: Seq<char>)
    ensures
        trim_spec(trim_spec(s)) == trim_spec(s),
{
    let u = trim_start_spec(s);
    let t = trim_end_spec(u);
    lemma_trim_start_skips(s);
    lemma_trim_end_takes(u);
    if t.len() > 0 {
        assert(t[0] == u[0]);
        assert(trim_start_spec(t) == t);
        assert(trim_end_spec(t) == t);
    } else {
        assert(trim_start_spec(t) == t);
        assert(trim_end_spec(t) == t);
    }
}

/// Whether some character of `s` is a control character.
pub open spec fn has_control_spec(s: Seq<char>) -> bool {
    exists|i: int| 0 <= i < s.len() && is_control_spec(#[trigger] s[i])
}

/// Removes leading and trailing whitespace.
pub fn trim(s: &str) -> (r: &str)
    ensures
        r@ == trim_spec(s@),
{
    let n = s.unicode_len();
    let mut i: usize = 0;
    assert(s@.subrange(0, n as int) =~= s@);
    while i < n && is_whitespace(s.get_char(i))
        invariant
            n == s@.len(),
            i <= n,
            trim_start_spec(s@) == trim_start_spec(s@.subrange(i as int, n as int)),
        decreases n - i,
    {
        assert(s@.subrange(i as int, n as int).drop_first() =~= s@.subrange(i + 1, n as int));
        i = i + 1;
    }
    assert(trim_start_spec(s@) == s@.subrange(i as int, n as int));
    let mut j: usize = n;
    while j > i && is_whitespace(s.get_char(j - 1))
        invariant
            n == s@.len(),
            i <= j <= n,
            trim_spec(s@) == trim_end_spec(s@.subrange(i as int, j as int)),
        decreases j - i,
    {
        assert(s@.subrange(i as int, j as int).drop_last() =~= s@.subrange(i as int, j - 1));
        j = j - 1;
    }
    s.substring_char(i, j)
}

/// Whether `s` holds a control character.
pub fn has_control(s: &str) -> (r: bool)
    ensures
        r == has_control_spec(s@),
{
    let n = s.unicode_len();
    let mut i: usize = 0;
    while i < n
        invariant
            n == s@.len(),
            i <= n,
            forall|k: int| 0 <= k < i ==> !is_control_spec(#[trigger] s@[k]),
        decreases n - i,
    {
        if is_control(s.get_char(i)) {
            return true;
        }
        i = i + 1;
    }
    false
}

/// `needle` occurs in `haystack` as a run of consecutive elements.
pub open spec fn contains_at<T>(haystack: Seq<T>, needle: Seq<T>, at: int) -> bool {
    0 <= at && at + needle.len() <= haystack.len() && haystack.subrange(at, at + needle.len())
        == needle
}

pub open spec fn contains_spec<T>(haystack: Seq<T>, needle: Seq<T>) -> bool {
    exists|at: int| contains_at(haystack, needle, at)
}

/// Byte-wise substring search, as `str::contains` does it for a `&str` pattern.
pub fn str_contains(haystack: &str, needle: &str) -> (r: bool)
    ensures
        r == contains_spec(haystack.spec_bytes(), needle.spec_bytes()),
{
    let h = haystack.as_bytes();
    let p = needle.as_bytes();
    let hn = h.len();
    let pn = p.len();
    if pn > hn {
        return false;
    }
    let mut at: usize = 0;
    while at <= hn - pn
        invariant
            h@ == haystack.spec_bytes(),
            p@ == needle.spec_bytes(),
            hn == h@.len(),
            pn == p@.len(),
            pn <= hn,
            forall|k: int| 0 <= k < at ==> !contains_at(h@, p@, k),
        decreases hn - pn + 1 - at,
    {
        let mut k: usize = 0;
        let mut same = true;
        while k < pn
            invariant
                hn == h@.len(),
                pn == p@.len(),
                at + pn <= hn,
                k <= pn,
                same == (forall|m: int| 0 <= m < k ==> h@[at + m] == p@[m]),
            decreases pn - k,
        {
            if h[at + k] != p[k] {
                same = false;
            }
            k = k + 1;
        }
        if same {
            assert(h@.subrange(at as int, at + pn) =~= p@);
            assert(contains_at(h@, p@, at as int));
            return true;
        }
        assert(!contains_at(h@, p@, at as int)) by {
            if h@.subrange(at as int, at + pn) == p@ {
                let m = choose|m: int| 0 <= m < pn && h@[at + m] != p@[m];
                assert(h@.subrange(at as int, at + pn)[m] == h@[at + m]);
            }
        }
        at = at + 1;
    }
    assert forall|k: int| !contains_at(h@, p@, k) by {
        if 0 <= k < at {
        }
    }
    false
}

/// The text of an optional string.
pub open spec fn opt_text(value: Option<String>) -> Option<Seq<char>> {
    match value {
        Some(s) => Some(s@),
        None => None,
    }
}

/// The text of bytes that are UTF-8, `None` for other bytes.
pub open spec fn utf8_text(bytes: Seq<u8>) -> Option<Seq<char>> {
    if valid_utf8(bytes) {
        Some(decode_utf8(bytes))
    } else {
        None
    }
}

/// Calls `std::str::from_utf8` and copies the text into a `String`.
///
/// std documents that the call succeeds exactly when the bytes are valid
/// UTF-8; vstd's `valid_utf8` and `decode_utf8` state that encoding.
#[verifier::external_body]
pub(crate) fn utf8_to_string(bytes: &[u8]) -> (r: Option<String>)
    ensures
        r is Some <==> valid_utf8(bytes@),
        r matches Some(s) ==> s@ == decode_utf8(bytes@),
{
    std::str::from_utf8(bytes).ok().map(str::to_owned)
}

/// What `String::from_utf8_lossy` makes of a byte sequence.
pub uninterp spec fn spec_utf8_lossy(bytes: Seq<u8>) -> Seq<char>;

/// Calls `String::from_utf8_lossy`.
///
/// The result is named by `spec_utf8_lossy`; std documents that valid UTF-8 is
/// returned unchanged, which is the one fact stated beside the name. How
/// invalid sequences are replaced by U+FFFD is left to the name.
#[verifier::external_body]
pub(crate) fn utf8_lossy(bytes: &[u8]) -> (r: String)
    ensures
        r@ == spec_utf8_lossy(bytes@),
        valid_utf8(bytes@) ==> r@ == decode_utf8(bytes@),
{
    String::from_utf8_lossy(bytes).into_owned()
}

/// The pieces of `bytes` between `separator` bytes, as `<[u8]>::split` yields
/// them: always at least one piece, empty pieces kept.
pub open spec fn split_spec(bytes: Seq<u8>, separator: u8) -> Seq<Seq<u8>>
    decreases bytes.len(),
{
    if bytes.len() == 0 {
        seq![Seq::<u8>::empty()]
    } else if bytes.last() == separator {
        split_spec(bytes.drop_last(), separator).push(Seq::<u8>::empty())
    } else {
        let r = split_spec(bytes.drop_last(), separator);
        r.update(r.len() - 1, r.last().push(bytes.last()))
    }
}

pub proof fn lemma_split_nonempty(bytes: Seq<u8>, separator: u8)
    ensures
        split_spec(bytes, separator).len() >= 1,
    decreases bytes.len(),
{
    if bytes.len() > 0 {
        lemma_split_nonempty(bytes.drop_last(), separator);
    }
}

/// `pieces` put back together with `separator` between neighbours.
pub open spec fn joined_with(pieces: Seq<Seq<u8>>, separator: u8) -> Seq<u8>
    decreases pieces.len(),
{
    if pieces.len() == 0 {
        Seq::empty()
    } else if pieces.len() == 1 {
        pieces[0]
    } else {
        joined_with(pieces.drop_last(), separator) + seq![separator] + pieces.last()
    }
}

/// Splitting loses nothing and cuts at every separator: the pieces, joined
/// again with the separator, are the bytes, and no piece holds a separator.
pub proof fn lemma_split_rejoins(bytes: Seq<u8>, separator: u8)
    ensures
        joined_with(split_spec(bytes, separator), separator) == bytes,
        forall|i: int, k: int|
            0 <= i < split_spec(bytes, separator).len() && 0 <= k < split_spec(bytes, separator)[i].len()
                ==> #[trigger] split_spec(bytes, separator)[i][k] != separator,
    decreases bytes.len(),
{
    let pieces = split_spec(bytes, separator);
    if bytes.len() > 0 {
        let rest = bytes.drop_last();
        let r = split_spec(rest, separator);
        lemma_split_rejoins(rest, separator);
        lemma_split_nonempty(rest, separator);
        if bytes.last() == separator {
            assert(pieces.drop_last() =~= r);
            assert(joined_with(pieces, separator) =~= rest + seq![separator] + Seq::<u8>::empty());
            assert(rest.push(separator) =~= bytes);
        } else {
            if r.len() == 1 {
                assert(joined_with(pieces, separator) == pieces[0]);
                assert(pieces[0] =~= rest.push(bytes.last()));
            } else {
                assert(pieces.drop_last() =~= r.drop_last());
                assert(joined_with(pieces, separator) =~= joined_with(r, separator).push(bytes.last()));
            }
            assert(rest.push(bytes.last()) =~= bytes);
            assert forall|i: int, k: int|
                0 <= i < pieces.len() && 0 <= k < pieces[i].len() implies #[trigger] pieces[i][k]
                != separator by {
                if i == r.len() - 1 && k == pieces[i].len() - 1 {
                } else {
                    assert(pieces[i][k] == r[i][k]);
                }
            }
        }
    }
}

pub open spec fn views_of(lines: Seq<Vec<u8>>) -> Seq<Seq<u8>> {
    lines.map_values(|v: Vec<u8>| v@)
}

/// Splits `bytes` at every `separator` byte.
pub fn split_bytes(bytes: &[u8], separator: u8) -> (lines: Vec<Vec<u8>>)
    ensures
        views_of(lines@) == split_spec(bytes@, separator),
{
    let n = bytes.len();
    let mut lines: Vec<Vec<u8>> = Vec::new();
    let mut current: Vec<u8> = Vec::new();
    let mut i: usize = 0;
    assert(bytes@.take(0) =~= Seq::<u8>::empty());
    assert(views_of(lines@).push(current@) =~= seq![Seq::<u8>::empty()]);
    while i < n
        invariant
            n == bytes@.len(),
            i <= n,
            views_of(lines@).push(current@) == split_spec(bytes@.take(i as int), separator),
        decreases n - i,
    {
        let b = bytes[i];
        let ghost prefix = bytes@.take(i as int);
        assert(bytes@.take(i + 1).drop_last() =~= prefix);
        assert(bytes@.take(i + 1).last() == b);
        if b == separator {
            lines.push(current);
            current = Vec::new();
            assert(views_of(lines@).push(current@) =~= split_spec(prefix, separator).push(
                Seq::<u8>::empty(),
            ));
        } else {
            let ghost before = current@;
            current.push(b);
            proof {
                let r = split_spec(prefix, separator);
                assert(r.last() == before);
                assert(views_of(lines@).push(current@) =~= r.update(
                    r.len() - 1,
                    r.last().push(b),
                ));
            }
        }
        i = i + 1;
    }
    assert(bytes@.take(n as int) =~= bytes@);
    lines.push(current);
    assert(views_of(lines@) =~= split_spec(bytes@, separator));
    lines
}

/// The first `n` characters of `s`, or all of them when it is shorter.
pub open spec fn take_chars_spec(s: Seq<char>, n: nat) -> Seq<char> {
    if s.len() <= n {
        s
    } else {
        s.take(n as int)
    }
}

/// Keeps at most `limit` characters of `s`.
pub fn take_chars(s: &str, limit: usize) -> (r: String)
    ensures
        r@ == take_chars_spec(s@, limit as nat),
{
    let n = s.unicode_len();
    let end = if n <= limit {
        n
    } else {
        limit
    };
    let part = s.substring_char(0, end);
    assert(n <= limit ==> s@.subrange(0, end as int) =~= s@);
    part.to_owned()
}

/// Text equality of two string slices.
pub fn str_eq(a: &str, b: &str) -> (r: bool)
    ensures
        r == (a@ == b@),
{
    a.to_owned() == b.to_owned()
}

/// `prefix` followed by `rest`, as a new string.
pub fn join_str(prefix: &str, rest: &str) -> (r: String)
    ensures
        r@ == prefix@ + rest@,
{
    prefix.to_owned().concat(rest)
}

/// The decimal digit `d`.
pub open spec fn digit_spec(d: nat) -> Seq<char> {
    "0123456789"@.subrange(d as int, d as int + 1)
}

/// The decimal representation of `n`, without leading zeros.
pub open spec fn decimal_spec(n: nat) -> Seq<char>
    decreases n,
{
    if n < 10 {
        digit_spec(n)
    } else {
        decimal_spec(n / 10) + digit_spec(n % 10)
    }
}

/// Writes `n` in decimal.
pub fn decimal_text(n: u128) -> (r: String)
    ensures
        r@ == decimal_spec(n as nat),
    decreases n,
{
    let digits = "0123456789";
    proof {
        reveal_strlit("0123456789");
    }
    let d = (n % 10) as usize;
    let last = digits.substring_char(d, d + 1);
    if n < 10 {
        last.to_owned()
    } else {
        join_str(decimal_text(n / 10).as_str(), last)
    }
}

} // verus!
