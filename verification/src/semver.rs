use vstd::prelude::*;

use crate::text::{chars_of, push_char};

verus! {

/// Semantic version for a construct.
#[derive(Debug, Clone, Copy, PartialEq, Eq, PartialOrd, Ord, Structural)]
pub struct SemVer {
    pub major: u32,
    pub minor: u32,
    pub patch: u32,
}

// ---------------------------------------------------------------------------
// The text model of a version: decimal numbers separated by dots.
// ---------------------------------------------------------------------------

pub open spec fn is_digit(c: char) -> bool {
    '0' <= c && c <= '9'
}

pub open spec fn digit_value(c: char) -> nat {
    (c as int - '0' as int) as nat
}

pub open spec fn digit_char(d: nat) -> char {
    ('0' as int + d) as char
}

pub open spec fn all_digits(s: Seq<char>) -> bool {
    forall|i: int| 0 <= i < s.len() ==> is_digit(#[trigger] s[i])
}

/// The number that a string of decimal digits denotes.
pub open spec fn digits_value(s: Seq<char>) -> nat
    decreases s.len(),
{
    if s.len() == 0 {
        0
    } else {
        digits_value(s.drop_last()) * 10 + digit_value(s.last())
    }
}

/// What `u32`'s `FromStr` gives: an optional `+`, then one or more decimal
/// digits whose value fits in a `u32`.
pub open spec fn parse_u32_spec(s: Seq<char>) -> Option<u32> {
    let d = if s.len() > 0 && s[0] == '+' {
        s.drop_first()
    } else {
        s
    };
    if d.len() == 0 || !all_digits(d) || digits_value(d) > u32::MAX {
        None
    } else {
        Some(digits_value(d) as u32)
    }
}

/// `s` with every leading `v` removed.
pub open spec fn trim_leading_v(s: Seq<char>) -> Seq<char>
    decreases s.len(),
{
    if s.len() > 0 && s[0] == 'v' {
        trim_leading_v(s.drop_first())
    } else {
        s
    }
}

/// The pieces of `s` between dots; there is always at least one piece.
pub open spec fn split_dots(s: Seq<char>) -> Seq<Seq<char>>
    decreases s.len(),
{
    if s.len() == 0 {
        seq![Seq::<char>::empty()]
    } else {
        let p = split_dots(s.drop_last());
        if s.last() == '.' {
            p.push(Seq::<char>::empty())
        } else {
            p.update(p.len() - 1, p.last().push(s.last()))
        }
    }
}

/// What `SemVer::parse` gives for the text `s`.
pub open spec fn parse_spec(s: Seq<char>) -> Option<SemVer> {
    let parts = split_dots(trim_leading_v(s));
    if parts.len() != 3 {
        None
    } else {
        match (parse_u32_spec(parts[0]), parse_u32_spec(parts[1]), parse_u32_spec(parts[2])) {
            (Some(major), Some(minor), Some(patch)) => Some(SemVer { major, minor, patch }),
            _ => None,
        }
    }
}

/// The decimal digits of `n`, without leading zeros.
pub open spec fn decimal(n: nat) -> Seq<char>
    decreases n,
{
    if n < 10 {
        seq![digit_char(n)]
    } else {
        decimal(n / 10).push(digit_char(n % 10))
    }
}

/// The text `major.minor.patch`.
pub open spec fn format_spec(v: SemVer) -> Seq<char> {
    decimal(v.major as nat) + seq!['.'] + decimal(v.minor as nat) + seq!['.'] + decimal(
        v.patch as nat,
    )
}

/// Lexicographic order on (major, minor, patch), as the derived `Ord` compares.
pub open spec fn version_gt(a: SemVer, b: SemVer) -> bool {
    a.major > b.major || (a.major == b.major && (a.minor > b.minor || (a.minor == b.minor
        && a.patch > b.patch)))
}

pub open spec fn compatible_spec(v: SemVer, required: SemVer) -> bool {
    v.major == required.major && v.minor <= required.minor
}

// ---------------------------------------------------------------------------
// Lemmas on the model.
// ---------------------------------------------------------------------------

proof fn lemma_split_nonempty(s: Seq<char>)
    ensures
        split_dots(s).len() >= 1,
    decreases s.len(),
{
    if s.len() > 0 {
        lemma_split_nonempty(s.drop_last());
    }
}

proof fn lemma_digits_value_prefix(s: Seq<char>, k: int)
    requires
        0 <= k <= s.len(),
    ensures
        digits_value(s.take(k)) <= digits_value(s),
    decreases s.len(),
{
    if k < s.len() {
        lemma_digits_value_prefix(s.drop_last(), k);
        assert(s.drop_last().take(k) =~= s.take(k));
    } else {
        assert(s.take(k) =~= s);
    }
}

proof fn lemma_digit_char(d: nat)
    requires
        d < 10,
    ensures
        is_digit(digit_char(d)),
        digit_value(digit_char(d)) == d,
{
}

proof fn lemma_decimal(n: nat)
    ensures
        decimal(n).len() >= 1,
        all_digits(decimal(n)),
        digits_value(decimal(n)) == n,
    decreases n,
{
    lemma_digit_char(n % 10);
    if n >= 10 {
        lemma_decimal(n / 10);
        let d = decimal(n);
        assert(d.drop_last() =~= decimal(n / 10));
        assert(d.last() == digit_char(n % 10));
        assert(digits_value(d) == digits_value(decimal(n / 10)) * 10 + n % 10);
        assert(n == (n / 10) * 10 + n % 10);
        assert forall|i: int| 0 <= i < d.len() implies is_digit(#[trigger] d[i]) by {
            if i < d.len() - 1 {
                assert(d[i] == decimal(n / 10)[i]);
            }
        }
    } else {
        assert(decimal(n).drop_last() =~= Seq::<char>::empty());
        assert(digits_value(Seq::<char>::empty()) == 0);
        assert(decimal(n).last() == digit_char(n));
        assert(digits_value(decimal(n)) == n);
    }
}

/// Splitting `p + q`, where `q` holds no dot, extends the last piece of `p`.
proof fn lemma_split_append_plain(p: Seq<char>, q: Seq<char>)
    requires
        forall|i: int| 0 <= i < q.len() ==> q[i] != '.',
    ensures
        split_dots(p + q) == split_dots(p).update(
            split_dots(p).len() - 1,
            split_dots(p).last() + q,
        ),
    decreases q.len(),
{
    lemma_split_nonempty(p);
    if q.len() == 0 {
        assert(p + q =~= p);
        assert(split_dots(p).last() + q =~= split_dots(p).last());
        assert(split_dots(p).update(split_dots(p).len() - 1, split_dots(p).last())
            =~= split_dots(p));
    } else {
        let q0 = q.drop_last();
        assert(q[q.len() - 1] != '.');
        lemma_split_append_plain(p, q0);
        lemma_split_nonempty(p + q0);
        assert((p + q).drop_last() =~= p + q0);
        assert((p + q).last() == q.last());
        let sp = split_dots(p);
        let sq0 = split_dots(p + q0);
        assert(sq0.len() == sp.len());
        assert(sq0.last() == sp.last() + q0);
        assert(split_dots(p + q) == sq0.update(sq0.len() - 1, sq0.last().push(q.last())));
        assert((sp.last() + q0).push(q.last()) =~= sp.last() + q);
        assert(split_dots(p + q) =~= split_dots(p).update(
            split_dots(p).len() - 1,
            split_dots(p).last() + q,
        ));
    }
}

proof fn lemma_split_append_dot(p: Seq<char>)
    ensures
        split_dots(p.push('.')) == split_dots(p).push(Seq::<char>::empty()),
{
    assert(p.push('.').drop_last() =~= p);
}

proof fn lemma_decimal_has_no_dot(n: nat)
    ensures
        forall|i: int| 0 <= i < decimal(n).len() ==> decimal(n)[i] != '.',
{
    lemma_decimal(n);
    assert forall|i: int| 0 <= i < decimal(n).len() implies decimal(n)[i] != '.' by {
        assert(is_digit(decimal(n)[i]));
    }
}

proof fn lemma_parse_decimal(n: u32)
    ensures
        parse_u32_spec(decimal(n as nat)) == Some(n),
{
    lemma_decimal(n as nat);
    assert(is_digit(decimal(n as nat)[0]));
}

/// Formatting a version and parsing the text gives the version back.
pub proof fn lemma_parse_format_roundtrip(v: SemVer)
    ensures
        parse_spec(format_spec(v)) == Some(v),
{
    let a = decimal(v.major as nat);
    let b = decimal(v.minor as nat);
    let c = decimal(v.patch as nat);
    lemma_decimal(v.major as nat);
    lemma_decimal_has_no_dot(v.major as nat);
    lemma_decimal_has_no_dot(v.minor as nat);
    lemma_decimal_has_no_dot(v.patch as nat);
    let t = format_spec(v);
    assert(is_digit(t[0]));
    assert(trim_leading_v(t) == t);
    let e = Seq::<char>::empty();
    // one piece
    lemma_split_append_plain(e, a);
    assert(e + a =~= a);
    assert(split_dots(e) =~= seq![e]);
    assert(split_dots(a) =~= seq![a]);
    // two pieces
    lemma_split_append_dot(a);
    lemma_split_append_plain(a.push('.'), b);
    assert(a + seq!['.'] =~= a.push('.'));
    let ab = a + seq!['.'] + b;
    assert(split_dots(ab) =~= seq![a, b]);
    // three pieces
    lemma_split_append_dot(ab);
    lemma_split_append_plain(ab.push('.'), c);
    assert(ab + seq!['.'] =~= ab.push('.'));
    assert(ab + seq!['.'] + c =~= t);
    assert(split_dots(t) =~= seq![a, b, c]);
    lemma_parse_decimal(v.major);
    lemma_parse_decimal(v.minor);
    lemma_parse_decimal(v.patch);
}

/// Leading `v`s are ignored: `v1.2.3` parses as `1.2.3` does.
pub proof fn lemma_parse_ignores_v_prefix(s: Seq<char>)
    ensures
        parse_spec(seq!['v'] + s) == parse_spec(s),
{
    assert((seq!['v'] + s).drop_first() =~= s);
}

/// Compatibility is a preorder: every version is compatible with itself,
/// and compatibility carries over along a chain of versions.
pub proof fn lemma_compatible_preorder(a: SemVer, b: SemVer, c: SemVer)
    ensures
        compatible_spec(a, a),
        compatible_spec(a, b) && compatible_spec(b, c) ==> compatible_spec(a, c),
{
}

/// Being newer is a strict total order on versions.
pub proof fn lemma_newer_strict_total(a: SemVer, b: SemVer, c: SemVer)
    ensures
        !version_gt(a, a),
        version_gt(a, b) ==> !version_gt(b, a),
        version_gt(a, b) && version_gt(b, c) ==> version_gt(a, c),
        a == b || version_gt(a, b) || version_gt(b, a),
{
}

/// Versions are ordered as numbers: a version is newer than another exactly
/// when the number whose digits in base 2^32 are its major, minor and patch
/// parts is larger. So a larger major wins, then a larger minor, then a
/// larger patch, each compared by numeric value.
pub proof fn lemma_newer_is_numeric(a: SemVer, b: SemVer)
    ensures
        version_gt(a, b) <==> a.major * 0x1_0000_0000_0000_0000int + a.minor * 0x1_0000_0000int
            + a.patch > b.major * 0x1_0000_0000_0000_0000int + b.minor * 0x1_0000_0000int
            + b.patch,
        a.major > b.major ==> version_gt(a, b),
        a.major == b.major && a.minor > b.minor ==> version_gt(a, b),
        a.major == b.major && a.minor == b.minor && a.patch > b.patch ==> version_gt(a, b),
        version_gt(a, b) ==> a.major >= b.major,
        version_gt(a, b) && a.major == b.major ==> a.minor >= b.minor,
{
}

/// Compatibility looks at major and minor only: the same major, and a minor
/// no newer than the required one. Patch numbers play no part.
pub proof fn lemma_compatible_ignores_patch(v: SemVer, r: SemVer, p: u32, q: u32)
    ensures
        compatible_spec(v, r) <==> (v.major == r.major && v.minor <= r.minor),
        compatible_spec(v, r) == compatible_spec(
            SemVer { major: v.major, minor: v.minor, patch: p },
            SemVer { major: r.major, minor: r.minor, patch: q },
        ),
{
}

// ---------------------------------------------------------------------------
// Executable code.
// ---------------------------------------------------------------------------

/// Parses `d` as `u32`'s `FromStr` does.
fn parse_u32_chars(d: &Vec<char>) -> (r: Option<u32>)
    ensures
        r == parse_u32_spec(d@),
{
    let n = d.len();
    let start: usize = if n > 0 && d[0] == '+' {
        1
    } else {
        0
    };
    let ghost digits = d@.subrange(start as int, n as int);
    assert(digits =~= (if d@.len() > 0 && d@[0] == '+' {
        d@.drop_first()
    } else {
        d@
    }));
    if start == n {
        return None;
    }
    let mut acc: u64 = 0;
    let mut i: usize = start;
    while i < n
        invariant
            start <= i <= n,
            n == d@.len(),
            digits == d@.subrange(start as int, n as int),
            digits == (if d@.len() > 0 && d@[0] == '+' {
                d@.drop_first()
            } else {
                d@
            }),
            acc == digits_value(digits.take(i - start)),
            acc <= u32::MAX,
            all_digits(digits.take(i - start)),
        decreases n - i,
    {
        let c = d[i];
        if !('0' <= c && c <= '9') {
            proof {
                assert(digits[i - start] == c);
                assert(!is_digit(digits[i - start]));
                assert(!all_digits(digits));
                assert(parse_u32_spec(d@).is_none());
            }
            return None;
        }
        let dv = (c as u32 - '0' as u32) as u64;
        proof {
            let k = i - start;
            assert(digits.take(k + 1).drop_last() =~= digits.take(k));
            assert(digits.take(k + 1).last() == c);
            assert(dv == digit_value(c));
            assert forall|j: int| 0 <= j < k + 1 implies is_digit(#[trigger] digits.take(k + 1)[j]) by {
                if j < k {
                    assert(digits.take(k + 1)[j] == digits.take(k)[j]);
                }
            }
        }
        acc = acc * 10 + dv;
        if acc > 0xffff_ffffu64 {
            proof {
                lemma_digits_value_prefix(digits, i + 1 - start);
            }
            return None;
        }
        i = i + 1;
    }
    assert(digits.take(n - start) =~= digits);
    Some(acc as u32)
}

/// Appends the decimal digits of `n` to `s`.
fn push_decimal(s: &mut String, n: u32)
    ensures
        final(s)@ == old(s)@ + decimal(n as nat),
    decreases n,
{
    if n >= 10 {
        push_decimal(s, n / 10);
    }
    let d = (n % 10) as u8;
    let c = (48u8 + d) as char;
    assert(c == digit_char((n % 10) as nat));
    push_char(s, c);
    proof {
        if n < 10 {
            assert(old(s)@ + decimal(n as nat) =~= old(s)@.push(c));
        } else {
            assert(old(s)@ + decimal((n / 10) as nat) + seq![c] =~= old(s)@ + decimal(n as nat));
        }
    }
}

impl SemVer {
    pub fn new(major: u32, minor: u32, patch: u32) -> (r: Self)
        ensures
            r == (SemVer { major, minor, patch }),
    {
        Self { major, minor, patch }
    }

    /// Parses `major.minor.patch`, after dropping any leading `v`s; each
    /// part is read as `u32`'s `FromStr` reads it.
    pub fn parse(s: &str) -> (r: Option<Self>)
        ensures
            r == parse_spec(s@),
    {
        let t = chars_of(s);
        let n = t.len();
        let mut j: usize = 0;
        assert(t@.subrange(0, n as int) =~= t@);
        while j < n && t[j] == 'v'
            invariant
                j <= n,
                n == t@.len(),
                trim_leading_v(t@) == trim_leading_v(t@.subrange(j as int, n as int)),
            decreases n - j,
        {
            assert(t@.subrange(j as int, n as int).drop_first() =~= t@.subrange(
                j + 1,
                n as int,
            ));
            j = j + 1;
        }
        let ghost body = t@.subrange(j as int, n as int);
        assert(trim_leading_v(body) == body);
        let mut done: Vec<Vec<char>> = Vec::new();
        let mut cur: Vec<char> = Vec::new();
        let mut i: usize = j;
        assert(body.take(0) =~= Seq::<char>::empty());
        assert(done@.map_values(|v: Vec<char>| v@).push(cur@) =~= split_dots(body.take(0)));
        while i < n
            invariant
                j <= i <= n,
                n == t@.len(),
                body == t@.subrange(j as int, n as int),
                done@.map_values(|v: Vec<char>| v@).push(cur@) == split_dots(body.take(i - j)),
            decreases n - i,
        {
            let c = t[i];
            let ghost k = i - j;
            let ghost before = done@.map_values(|v: Vec<char>| v@).push(cur@);
            assert(body.take(k + 1).drop_last() =~= body.take(k));
            assert(body.take(k + 1).last() == c);
            if c == '.' {
                done.push(cur);
                cur = Vec::new();
                assert(done@.map_values(|v: Vec<char>| v@).push(cur@) =~= before.push(
                    Seq::<char>::empty(),
                ));
            } else {
                cur.push(c);
                assert(done@.map_values(|v: Vec<char>| v@).push(cur@) =~= before.update(
                    before.len() - 1,
                    before.last().push(c),
                ));
            }
            i = i + 1;
        }
        assert(body.take(n - j) =~= body);
        let ghost parts = done@.map_values(|v: Vec<char>| v@).push(cur@);
        if done.len() != 2 {
            return None;
        }
        assert(parts[0] == done@[0]@);
        assert(parts[1] == done@[1]@);
        assert(parts[2] == cur@);
        let major = parse_u32_chars(&done[0]);
        let minor = parse_u32_chars(&done[1]);
        let patch = parse_u32_chars(&cur);
        match (major, minor, patch) {
            (Some(major), Some(minor), Some(patch)) => Some(SemVer { major, minor, patch }),
            _ => None,
        }
    }

    /// Same major version, and a minor version no newer than the required one.
    pub fn is_compatible_with(&self, required: &SemVer) -> (r: bool)
        ensures
            r == compatible_spec(*self, *required),
    {
        self.major == required.major && self.minor <= required.minor
    }

    /// The text `major.minor.patch`, as `Display` would write it.
    pub fn to_string(&self) -> (r: String)
        ensures
            r@ == format_spec(*self),
    {
        let mut s = "".to_owned();
        proof {
            reveal_strlit("");
        }
        push_decimal(&mut s, self.major);
        push_char(&mut s, '.');
        push_decimal(&mut s, self.minor);
        push_char(&mut s, '.');
        push_decimal(&mut s, self.patch);
        assert(s@ =~= format_spec(*self));
        s
    }

    /// Whether `self` is a strictly newer version than `other`.
    pub fn is_newer_than(&self, other: &SemVer) -> (r: bool)
        ensures
            r == version_gt(*self, *other),
    {
        self.major > other.major || (self.major == other.major && (self.minor > other.minor || (
        self.minor == other.minor && self.patch > other.patch)))
    }
}

} // verus!
