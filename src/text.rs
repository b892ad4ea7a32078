//! Character-level helpers shared by the resolver: ASCII case folding,
//! substring tests, decimal parsing and version-string extraction.
use vstd::prelude::*;
use vstd::string::*;

verus! {

/// ASCII lower-casing of one character; other characters are unchanged.
pub open spec fn lower_char(c: char) -> char {
    if 'A' <= c && c <= 'Z' {
        ((c as u32) + 32) as char
    } else {
        c
    }
}

/// ASCII lower-casing of a whole string.
pub open spec fn lower_seq(s: Seq<char>) -> Seq<char> {
    Seq::new(s.len(), |i: int| lower_char(s[i]))
}

/// `needle` occurs as a contiguous part of `hay`.
pub open spec fn seq_contains(hay: Seq<char>, needle: Seq<char>) -> bool {
    exists|i: int|
        0 <= i && i + needle.len() <= hay.len() && #[trigger] hay.subrange(i, i + needle.len())
            == needle
}

/// Every `-` replaced by `_`.
pub open spec fn dash_to_underscore(s: Seq<char>) -> Seq<char> {
    Seq::new(s.len(), |i: int| if s[i] == '-' { '_' } else { s[i] })
}

/// What `str::to_uppercase` returns for a string: full Unicode upper-casing.
pub uninterp spec fn upper_of(s: Seq<char>) -> Seq<char>;

pub open spec fn is_digit(c: char) -> bool {
    '0' <= c && c <= '9'
}

pub open spec fn all_digits(s: Seq<char>) -> bool {
    forall|i: int| 0 <= i < s.len() ==> is_digit(#[trigger] s[i])
}

/// The number written by a string of decimal digits.
pub open spec fn digits_value(s: Seq<char>) -> int
    decreases s.len(),
{
    if s.len() == 0 {
        0
    } else {
        digits_value(s.drop_last()) * 10 + (s.last() as int - '0' as int)
    }
}

/// The digits after an optional leading `+`, when they are a well-formed number.
pub open spec fn unsigned_body(s: Seq<char>) -> Seq<char> {
    if s.len() > 0 && s[0] == '+' {
        s.drop_first()
    } else {
        s
    }
}

/// What `str::parse::<u64>` accepts: an optional `+`, then at least one digit,
/// the value fitting in 64 bits.
pub open spec fn spec_parse_u64(s: Seq<char>) -> Option<u64> {
    let body = unsigned_body(s);
    if body.len() > 0 && all_digits(body) && digits_value(body) <= u64::MAX {
        Some(digits_value(body) as u64)
    } else {
        None
    }
}

/// What `str::parse::<i32>` accepts (an optional sign, then digits, in range),
/// and zero for anything else.
pub open spec fn spec_i32_or_zero(s: Seq<char>) -> i32 {
    let neg = s.len() > 0 && s[0] == '-';
    let body = if neg { s.drop_first() } else { unsigned_body(s) };
    if body.len() > 0 && all_digits(body) {
        if neg && digits_value(body) <= 0x8000_0000 {
            (-digits_value(body)) as i32
        } else if !neg && digits_value(body) <= 0x7fff_ffff {
            digits_value(body) as i32
        } else {
            0
        }
    } else {
        0
    }
}

pub open spec fn is_version_char(c: char) -> bool {
    is_digit(c) || c == '.'
}

/// The digits and dots of a string, in order.
pub open spec fn version_chars(s: Seq<char>) -> Seq<char>
    decreases s.len(),
{
    if s.len() == 0 {
        s
    } else if is_version_char(s.last()) {
        version_chars(s.drop_last()).push(s.last())
    } else {
        version_chars(s.drop_last())
    }
}

/// The part of a string after its last `/` (the whole string when it has none).
pub open spec fn after_last_slash(s: Seq<char>) -> Seq<char>
    decreases s.len(),
{
    if s.len() == 0 {
        s
    } else if s.last() == '/' {
        Seq::empty()
    } else {
        after_last_slash(s.drop_last()).push(s.last())
    }
}

pub fn ascii_lower(c: char) -> (r: char)
    ensures
        r == lower_char(c),
{
    if 'A' <= c && c <= 'Z' {
        ((c as u8) + 32) as char
    } else {
        c
    }
}

/// Equality of two strings up to ASCII case.
pub fn eq_ignore_ascii_case(a: &str, b: &str) -> (r: bool)
    ensures
        r == (lower_seq(a@) == lower_seq(b@)),
{
    let n = a.unicode_len();
    let m = b.unicode_len();
    if n != m {
        proof {
            assert(lower_seq(a@).len() != lower_seq(b@).len());
        }
        return false;
    }
    let mut i: usize = 0;
    while i < n
        invariant
            n == a@.len(),
            m == b@.len(),
            n == m,
            i <= n,
            forall|j: int| 0 <= j < i ==> lower_char(a@[j]) == lower_char(b@[j]),
        decreases n - i,
    {
        if ascii_lower(a.get_char(i)) != ascii_lower(b.get_char(i)) {
            proof {
                assert(lower_seq(a@)[i as int] != lower_seq(b@)[i as int]);
            }
            return false;
        }
        i = i + 1;
    }
    proof {
        assert(lower_seq(a@) =~= lower_seq(b@));
    }
    true
}

/// Whether `lowered` is exactly the ASCII lower-casing of `s`.
pub fn is_lowering_of(lowered: &str, s: &str) -> (r: bool)
    ensures
        r == (lowered@ == lower_seq(s@)),
{
    let n = lowered.unicode_len();
    let m = s.unicode_len();
    if n != m {
        proof {
            assert(lowered@.len() != lower_seq(s@).len());
        }
        return false;
    }
    let mut i: usize = 0;
    while i < n
        invariant
            n == lowered@.len(),
            m == s@.len(),
            n == m,
            i <= n,
            forall|j: int| 0 <= j < i ==> lowered@[j] == lower_char(s@[j]),
        decreases n - i,
    {
        if lowered.get_char(i) != ascii_lower(s.get_char(i)) {
            proof {
                assert(lower_seq(s@)[i as int] != lowered@[i as int]);
            }
            return false;
        }
        i = i + 1;
    }
    proof {
        assert(lowered@ =~= lower_seq(s@));
    }
    true
}

/// Whether `needle` occurs in the ASCII lower-casing of `hay`.
pub fn contains_in_lowered(hay: &str, needle: &str) -> (r: bool)
    ensures
        r == seq_contains(lower_seq(hay@), needle@),
{
    let n = hay.unicode_len();
    let k = needle.unicode_len();
    let low = Ghost(lower_seq(hay@));
    if k > n {
        return false;
    }
    let mut i: usize = 0;
    while i <= n - k
        invariant
            n == hay@.len(),
            k == needle@.len(),
            k <= n,
            low@ == lower_seq(hay@),
            forall|p: int| 0 <= p < i ==> #[trigger] low@.subrange(p, p + k) != needle@,
        decreases n - k + 1 - i,
    {
        let mut j: usize = 0;
        let mut same = true;
        while j < k
            invariant
                n == hay@.len(),
                k == needle@.len(),
                k <= n,
                i <= n - k,
                j <= k,
                low@ == lower_seq(hay@),
                same == forall|q: int| 0 <= q < j ==> low@[i + q] == needle@[q],
            decreases k - j,
        {
            if ascii_lower(hay.get_char(i + j)) != needle.get_char(j) {
                same = false;
            }
            j = j + 1;
        }
        if same {
            proof {
                assert(low@.subrange(i as int, i + k) =~= needle@);
            }
            return true;
        }
        proof {
            let q = choose|q: int| 0 <= q < k && low@[i + q] != needle@[q];
            assert(low@.subrange(i as int, i + k)[q] != needle@[q]);
        }
        i = i + 1;
    }
    proof {
        assert forall|p: int| 0 <= p && p + needle@.len() <= low@.len() implies #[trigger] low@.subrange(
            p,
            p + needle@.len(),
        ) != needle@ by {
            assert(p < i);
        }
    }
    false
}

/// The string with every `-` replaced by `_`.
pub fn replace_dash(s: &str) -> (r: String)
    ensures
        r@ == dash_to_underscore(s@),
{
    let n = s.unicode_len();
    let mut r = String::new();
    let mut i: usize = 0;
    while i < n
        invariant
            n == s@.len(),
            i <= n,
            r@ == dash_to_underscore(s@.subrange(0, i as int)),
        decreases n - i,
    {
        let c = s.get_char(i);
        proof {
            reveal_strlit("_");
        }
        if c == '-' {
            r.append("_");
        } else {
            r.append(s.substring_char(i, i + 1));
        }
        proof {
            assert(dash_to_underscore(s@.subrange(0, i + 1)) =~= dash_to_underscore(
                s@.subrange(0, i as int),
            ).push(if c == '-' { '_' } else { c }));
        }
        i = i + 1;
    }
    proof {
        assert(s@.subrange(0, n as int) =~= s@);
    }
    r
}

/// Relies on `str::to_uppercase`: its result depends on the characters alone.
#[verifier::external_body]
pub(crate) fn to_upper(s: &str) -> (r: String)
    ensures
        r@ == upper_of(s@),
{
    s.to_uppercase()
}

proof fn lemma_digits_value_nonneg(s: Seq<char>)
    requires
        all_digits(s),
    ensures
        digits_value(s) >= 0,
    decreases s.len(),
{
    if s.len() > 0 {
        assert(all_digits(s.drop_last())) by {
            assert forall|i: int| 0 <= i < s.drop_last().len() implies is_digit(
                #[trigger] s.drop_last()[i],
            ) by {
                assert(s.drop_last()[i] == s[i]);
            }
        }
        lemma_digits_value_nonneg(s.drop_last());
        assert(is_digit(s[s.len() - 1]));
    }
}

/// The value of a string of digits, when it fits in 64 bits.
fn digits_to_u64(s: &str, from: usize) -> (r: Option<u64>)
    requires
        from <= s@.len(),
    ensures
        ({
            let body = s@.subrange(from as int, s@.len() as int);
            r == if all_digits(body) && digits_value(body) <= u64::MAX {
                Some(digits_value(body) as u64)
            } else {
                None
            }
        }),
{
    let n = s.unicode_len();
    let ghost body = s@.subrange(from as int, n as int);
    let mut v: u64 = 0;
    let mut i: usize = from;
    while i < n
        invariant
            n == s@.len(),
            from <= i <= n,
            body == s@.subrange(from as int, n as int),
            all_digits(s@.subrange(from as int, i as int)),
            v as int == digits_value(s@.subrange(from as int, i as int)),
        decreases n - i,
    {
        let c = s.get_char(i);
        let ghost pre = s@.subrange(from as int, i as int);
        let ghost next = s@.subrange(from as int, i + 1);
        proof {
            assert(next.drop_last() =~= pre);
            assert(next.last() == c);
        }
        if !('0' <= c && c <= '9') {
            proof {
                assert(body[i - from] == c);
                assert(!all_digits(body));
            }
            return None;
        }
        let d = (c as u32 - '0' as u32) as u64;
        let step = v.checked_mul(10);
        let total = match step {
            Some(t) => t.checked_add(d),
            None => None,
        };
        match total {
            Some(t) => {
                v = t;
                proof {
                    assert(all_digits(next)) by {
                        assert forall|q: int| 0 <= q < next.len() implies is_digit(
                            #[trigger] next[q],
                        ) by {
                            if q < pre.len() {
                                assert(next[q] == pre[q]);
                            }
                        }
                    }
                }
            },
            None => {
                proof {
                    assert(digits_value(next) > u64::MAX);
                    if all_digits(body) {
                        lemma_prefix_bound(body, (i + 1 - from) as int);
                        assert(body.subrange(0, (i + 1 - from) as int) =~= next);
                    }
                }
                return None;
            },
        }
        i = i + 1;
    }
    proof {
        assert(s@.subrange(from as int, i as int) =~= body);
    }
    Some(v)
}

/// The value of a digit string is at least the value of any of its prefixes.
proof fn lemma_prefix_bound(s: Seq<char>, k: int)
    requires
        0 <= k <= s.len(),
        all_digits(s),
    ensures
        digits_value(s) >= digits_value(s.subrange(0, k)),
    decreases s.len() - k,
{
    if k < s.len() {
        lemma_prefix_bound(s, k + 1);
        let a = s.subrange(0, k + 1);
        assert(a.drop_last() =~= s.subrange(0, k));
        assert(all_digits(a.drop_last())) by {
            assert forall|i: int| 0 <= i < a.drop_last().len() implies is_digit(
                #[trigger] a.drop_last()[i],
            ) by {
                assert(a.drop_last()[i] == s[i]);
            }
        }
        lemma_digits_value_nonneg(a.drop_last());
        assert(is_digit(s[k]));
        assert(a.last() == s[k]);
    } else {
        assert(s.subrange(0, k) =~= s);
    }
}

/// Decimal parsing as `str::parse::<u64>` does it.
pub fn parse_u64(s: &str) -> (r: Option<u64>)
    ensures
        r == spec_parse_u64(s@),
{
    let n = s.unicode_len();
    let from: usize = if n > 0 && s.get_char(0) == '+' {
        1
    } else {
        0
    };
    proof {
        assert(unsigned_body(s@) =~= s@.subrange(from as int, n as int));
    }
    if from == n {
        return None;
    }
    digits_to_u64(s, from)
}

/// Decimal parsing as `str::parse::<i32>` does it, with zero for what it refuses.
pub fn parse_i32_or_zero(s: &str) -> (r: i32)
    ensures
        r == spec_i32_or_zero(s@),
{
    let n = s.unicode_len();
    if n == 0 {
        return 0;
    }
    let first = s.get_char(0);
    let neg = first == '-';
    let from: usize = if first == '-' || first == '+' {
        1
    } else {
        0
    };
    proof {
        if neg {
            assert(s@.drop_first() =~= s@.subrange(1, n as int));
        } else {
            assert(unsigned_body(s@) =~= s@.subrange(from as int, n as int));
        }
    }
    if from == n {
        return 0;
    }
    let ghost body = s@.subrange(from as int, n as int);
    proof {
        assert(body.len() > 0);
        if neg {
            assert(body == s@.drop_first());
        } else {
            assert(body == unsigned_body(s@));
        }
    }
    match digits_to_u64(s, from) {
        Some(v) => {
            proof {
                lemma_digits_value_nonneg(body);
            }
            if neg && v <= 0x8000_0000 {
                let w: i64 = 0i64 - v as i64;
                assert(w == -digits_value(body));
                w as i32
            } else if !neg && v <= 0x7fff_ffff {
                v as i32
            } else {
                0
            }
        },
        None => {
            proof {
                if all_digits(body) {
                    assert(digits_value(body) > u64::MAX);
                }
            }
            0
        },
    }
}

/// The digits and dots of `text`, in order: a version number out of a
/// command's output or a release tag.
pub fn parse_version(text: &str) -> (r: String)
    ensures
        r@ == version_chars(text@),
{
    let n = text.unicode_len();
    let mut r = String::new();
    let mut i: usize = 0;
    while i < n
        invariant
            n == text@.len(),
            i <= n,
            r@ == version_chars(text@.subrange(0, i as int)),
        decreases n - i,
    {
        let c = text.get_char(i);
        proof {
            assert(text@.subrange(0, i + 1).drop_last() =~= text@.subrange(0, i as int));
        }
        if ('0' <= c && c <= '9') || c == '.' {
            r.append(text.substring_char(i, i + 1));
        }
        i = i + 1;
    }
    proof {
        assert(text@.subrange(0, n as int) =~= text@);
    }
    r
}

/// The part of `s` after its last `/`.
pub fn last_segment(s: &str) -> (r: &str)
    ensures
        r@ == after_last_slash(s@),
{
    let n = s.unicode_len();
    let mut start: usize = 0;
    let mut i: usize = 0;
    while i < n
        invariant
            n == s@.len(),
            start <= i <= n,
            after_last_slash(s@.subrange(0, i as int)) == s@.subrange(start as int, i as int),
        decreases n - i,
    {
        let c = s.get_char(i);
        proof {
            assert(s@.subrange(0, i + 1).drop_last() =~= s@.subrange(0, i as int));
        }
        if c == '/' {
            start = i + 1;
            proof {
                assert(s@.subrange(start as int, i + 1) =~= Seq::<char>::empty());
            }
        } else {
            proof {
                assert(s@.subrange(start as int, i + 1) =~= s@.subrange(start as int, i as int).push(
                    c,
                ));
            }
        }
        i = i + 1;
    }
    proof {
        assert(s@.subrange(0, n as int) =~= s@);
    }
    s.substring_char(start, n)
}

} // verus!
