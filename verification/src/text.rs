//! Text helpers: trimming, prefixes, splitting, decimal numbers and the
//! UTF-8 conversions the chat applies to what comes off the wire.

use vstd::prelude::*;
use vstd::string::*;
use vstd::utf8::*;

verus! {

broadcast use vstd::string::group_string_axioms;

// ---------------------------------------------------------------------
// std calls
// ---------------------------------------------------------------------

/// std's `String::push`: the string grows by the one character.
#[verifier::external_body]
pub(crate) fn string_push(s: &mut String, c: char)
    ensures
        final(s)@ == old(s)@.push(c),
{
    s.push(c);
}

/// std's `String::from_utf8`: succeeds exactly on valid UTF-8, and then
/// holds the characters that the bytes encode.
#[verifier::external_body]
pub(crate) fn string_from_utf8(bytes: Vec<u8>) -> (res: Option<String>)
    ensures
        res is Some <==> valid_utf8(bytes@),
        res matches Some(s) ==> s@ == decode_utf8(bytes@),
{
    String::from_utf8(bytes).ok()
}

/// What std's `String::from_utf8_lossy` makes of a byte string.
pub uninterp spec fn utf8_lossy(bytes: Seq<u8>) -> Seq<char>;

/// std's `String::from_utf8_lossy`, owned.  Its documentation says that
/// valid UTF-8 comes back unchanged; on other input invalid sequences
/// become U+FFFD, which is left to the name `utf8_lossy`.
#[verifier::external_body]
pub(crate) fn string_from_utf8_lossy(bytes: &[u8]) -> (res: String)
    ensures
        res@ == utf8_lossy(bytes@),
        valid_utf8(bytes@) ==> res@ == decode_utf8(bytes@),
{
    String::from_utf8_lossy(bytes).into_owned()
}

/// The UTF-8 bytes of a string.
pub fn str_bytes(s: &str) -> (res: Vec<u8>)
    ensures
        res@ == encode_utf8(s@),
{
    s.as_bytes_vec()
}

/// A string holding the characters of `s`.
pub fn owned(s: &str) -> (res: String)
    ensures
        res@ == s@,
{
    String::from_str(s)
}

/// `a` followed by `b`.
pub fn join2(a: &str, b: &str) -> (res: String)
    ensures
        res@ == a@ + b@,
{
    String::from_str(a).concat(b)
}

/// `a`, `b` and `c` one after the other.
pub fn join3(a: &str, b: &str, c: &str) -> (res: String)
    ensures
        res@ == a@ + b@ + c@,
{
    String::from_str(a).concat(b).concat(c)
}

// ---------------------------------------------------------------------
// comparing and prefixes
// ---------------------------------------------------------------------

/// Whether two strings hold the same characters.
pub fn text_eq(a: &str, b: &str) -> (res: bool)
    ensures
        res == (a@ == b@),
{
    let n = a.unicode_len();
    let m = b.unicode_len();
    if n != m {
        return false;
    }
    let mut i: usize = 0;
    while i < n
        invariant
            n == a@.len(),
            m == b@.len(),
            n == m,
            i <= n,
            forall|k: int| 0 <= k < i ==> a@[k] == b@[k],
        decreases n - i,
    {
        if a.get_char(i) != b.get_char(i) {
            return false;
        }
        i = i + 1;
    }
    assert(a@ =~= b@);
    true
}

/// `s` begins with `prefix`.
pub open spec fn has_prefix(s: Seq<char>, prefix: Seq<char>) -> bool {
    prefix.len() <= s.len() && s.subrange(0, prefix.len() as int) == prefix
}

/// Whether `s` begins with `prefix` (std's `str::starts_with` on a string).
pub fn starts_with(s: &str, prefix: &str) -> (res: bool)
    ensures
        res == has_prefix(s@, prefix@),
{
    let n = s.unicode_len();
    let m = prefix.unicode_len();
    if m > n {
        return false;
    }
    let mut i: usize = 0;
    while i < m
        invariant
            n == s@.len(),
            m == prefix@.len(),
            m <= n,
            i <= m,
            forall|k: int| 0 <= k < i ==> s@[k] == prefix@[k],
        decreases m - i,
    {
        if s.get_char(i) != prefix.get_char(i) {
            assert(s@.subrange(0, m as int)[i as int] != prefix@[i as int]);
            return false;
        }
        i = i + 1;
    }
    assert(s@.subrange(0, m as int) =~= prefix@);
    true
}

// ---------------------------------------------------------------------
// trimming
// ---------------------------------------------------------------------

/// The characters with Unicode's White_Space property, those that std's
/// `char::is_whitespace` accepts and `str::trim` removes.
pub open spec fn is_whitespace(c: char) -> bool {
    let u = c as u32;
    (0x9 <= u && u <= 0xd) || u == 0x20 || u == 0x85 || u == 0xa0 || u == 0x1680 || (0x2000
        <= u && u <= 0x200a) || u == 0x2028 || u == 0x2029 || u == 0x202f || u == 0x205f || u
        == 0x3000
}

/// The characters that a trim removes.
pub enum TrimKind {
    /// Unicode white space, as `str::trim` removes it.
    Whitespace,
    /// The NUL character, as `str::trim_matches(char::from(0))` removes it.
    Nul,
}

impl TrimKind {
    /// Whether `c` is one of the characters this trim removes.
    pub open spec fn removes(self, c: char) -> bool {
        match self {
            TrimKind::Whitespace => is_whitespace(c),
            TrimKind::Nul => c == '\0',
        }
    }

    /// Whether `c` is one of the characters this trim removes.
    pub fn removes_char(&self, c: char) -> (res: bool)
        ensures
            res == self.removes(c),
    {
        match self {
            TrimKind::Whitespace => {
                let u = c as u32;
                (0x9 <= u && u <= 0xd) || u == 0x20 || u == 0x85 || u == 0xa0 || u == 0x1680 || (
                0x2000 <= u && u <= 0x200a) || u == 0x2028 || u == 0x2029 || u == 0x202f || u
                    == 0x205f || u == 0x3000
            },
            TrimKind::Nul => c == '\0',
        }
    }
}

/// `s` without the characters of `kind` at its start.
pub open spec fn trim_start(s: Seq<char>, kind: TrimKind) -> Seq<char>
    decreases s.len(),
{
    if s.len() > 0 && kind.removes(s[0]) {
        trim_start(s.drop_first(), kind)
    } else {
        s
    }
}

/// `s` without the characters of `kind` at its end.
pub open spec fn trim_end(s: Seq<char>, kind: TrimKind) -> Seq<char>
    decreases s.len(),
{
    if s.len() > 0 && kind.removes(s.last()) {
        trim_end(s.drop_last(), kind)
    } else {
        s
    }
}

/// `s` without the characters of `kind` at either end.
pub open spec fn trimmed(s: Seq<char>, kind: TrimKind) -> Seq<char> {
    trim_end(trim_start(s, kind), kind)
}

/// `s` with the characters of `kind` removed from both ends
/// (std's `str::trim`, or `str::trim_matches` with the NUL character).
pub fn trim(s: &str, kind: TrimKind) -> (res: String)
    ensures
        res@ == trimmed(s@, kind),
{
    let n = s.unicode_len();
    let mut a: usize = 0;
    assert(s@.subrange(0, n as int) =~= s@);
    while a < n && kind.removes_char(s.get_char(a))
        invariant
            n == s@.len(),
            a <= n,
            trim_start(s@, kind) == trim_start(s@.subrange(a as int, n as int), kind),
        decreases n - a,
    {
        assert(s@.subrange(a as int, n as int).drop_first() =~= s@.subrange(
            a + 1,
            n as int,
        ));
        a = a + 1;
    }
    let mut b: usize = n;
    while b > a && kind.removes_char(s.get_char(b - 1))
        invariant
            n == s@.len(),
            a <= b <= n,
            trim_start(s@, kind) == trim_start(s@.subrange(a as int, n as int), kind),
            a < n ==> !kind.removes(s@[a as int]),
            trim_end(s@.subrange(a as int, n as int), kind) == trim_end(
                s@.subrange(a as int, b as int),
                kind,
            ),
        decreases b - a,
    {
        assert(s@.subrange(a as int, b as int).drop_last() =~= s@.subrange(
            a as int,
            b - 1,
        ));
        b = b - 1;
    }
    let res = String::from_str(s.substring_char(a, b));
    proof {
        if a == n {
            assert(s@.subrange(a as int, n as int) =~= Seq::<char>::empty());
        }
    }
    res
}

// ---------------------------------------------------------------------
// splitting
// ---------------------------------------------------------------------

/// The pieces of `s` between the occurrences of `sep`, as std's
/// `str::split` gives them (an empty string has one empty piece).
pub open spec fn split_on(s: Seq<char>, sep: char) -> Seq<Seq<char>>
    decreases s.len(),
{
    if s.len() == 0 {
        seq![Seq::<char>::empty()]
    } else {
        let prev = split_on(s.drop_last(), sep);
        if s.last() == sep {
            prev.push(Seq::<char>::empty())
        } else {
            prev.update(prev.len() - 1, prev.last().push(s.last()))
        }
    }
}

/// A split always has at least one piece.
pub proof fn lemma_split_on_nonempty(s: Seq<char>, sep: char)
    ensures
        split_on(s, sep).len() >= 1,
    decreases s.len(),
{
    if s.len() > 0 {
        lemma_split_on_nonempty(s.drop_last(), sep);
    }
}

/// The views of a vector of strings.
pub open spec fn views(v: Seq<String>) -> Seq<Seq<char>> {
    v.map_values(|x: String| x@)
}

/// The pieces of `s` between the occurrences of `sep` (std's `str::split`
/// with a one-character pattern).
pub fn split(s: &str, sep: char) -> (res: Vec<String>)
    ensures
        views(res@) == split_on(s@, sep),
{
    let n = s.unicode_len();
    let mut done: Vec<String> = Vec::new();
    let mut cur = String::new();
    let mut i: usize = 0;
    assert(s@.subrange(0, 0) =~= Seq::<char>::empty());
    assert(views(done@).push(cur@) =~= split_on(s@.subrange(0, 0), sep));
    while i < n
        invariant
            n == s@.len(),
            i <= n,
            views(done@).push(cur@) == split_on(s@.subrange(0, i as int), sep),
        decreases n - i,
    {
        let c = s.get_char(i);
        let ghost prev = split_on(s@.subrange(0, i as int), sep);
        assert(s@.subrange(0, i + 1).drop_last() =~= s@.subrange(0, i as int));
        assert(s@.subrange(0, i + 1).last() == c);
        if c == sep {
            done.push(cur);
            cur = String::new();
            assert(views(done@).push(cur@) =~= prev.push(Seq::<char>::empty()));
        } else {
            let ghost old_cur = cur@;
            string_push(&mut cur, c);
            assert(views(done@).push(cur@) =~= prev.update(
                prev.len() - 1,
                prev.last().push(c),
            ));
        }
        i = i + 1;
    }
    done.push(cur);
    assert(s@.subrange(0, n as int) =~= s@);
    done
}

/// The part of `s` before the first `sep` and the part after it
/// (std's `str::split_once`), or nothing when `sep` does not occur.
pub open spec fn split_once_on(s: Seq<char>, sep: char) -> Option<(Seq<char>, Seq<char>)>
    decreases s.len(),
{
    if s.len() == 0 {
        None
    } else if s[0] == sep {
        Some((Seq::<char>::empty(), s.drop_first()))
    } else {
        match split_once_on(s.drop_first(), sep) {
            Some(p) => Some((seq![s[0]] + p.0, p.1)),
            None => None,
        }
    }
}

/// The part of `s` after the first `sep`, or nothing when `sep` does not
/// occur in `s`.
pub fn after_first(s: &str, sep: char) -> (res: Option<String>)
    ensures
        match split_once_on(s@, sep) {
            Some(p) => res matches Some(r) && r@ == p.1,
            None => res is None,
        },
{
    let n = s.unicode_len();
    let mut i: usize = 0;
    assert(s@.subrange(0, n as int) =~= s@);
    proof {
        match split_once_on(s@, sep) {
            Some(p) => {
                assert(s@.subrange(0, 0) + p.0 =~= p.0);
            },
            None => {},
        }
    }
    while i < n
        invariant
            n == s@.len(),
            i <= n,
            forall|k: int| 0 <= k < i ==> s@[k] != sep,
            split_once_on(s@, sep) == match split_once_on(s@.subrange(i as int, n as int), sep) {
                Some(p) => Some((s@.subrange(0, i as int) + p.0, p.1)),
                None => None::<(Seq<char>, Seq<char>)>,
            },
        decreases n - i,
    {
        let c = s.get_char(i);
        if c == sep {
            let rest = String::from_str(s.substring_char(i + 1, n));
            assert(s@.subrange(i as int, n as int).drop_first() =~= s@.subrange(i + 1, n as int));
            return Some(rest);
        }
        proof {
            let t = s@.subrange(i as int, n as int);
            assert(t.drop_first() =~= s@.subrange(i + 1, n as int));
            assert(s@.subrange(0, i + 1) =~= s@.subrange(0, i as int) + seq![c]);
            match split_once_on(t.drop_first(), sep) {
                Some(p) => {
                    assert(s@.subrange(0, i as int) + (seq![c] + p.0) =~= s@.subrange(0, i + 1)
                        + p.0);
                },
                None => {},
            }
        }
        i = i + 1;
    }
    assert(s@.subrange(n as int, n as int) =~= Seq::<char>::empty());
    None
}

// ---------------------------------------------------------------------
// decimal numbers
// ---------------------------------------------------------------------

/// The character of the decimal digit `d`.
pub open spec fn digit_char(d: nat) -> char {
    (48 + d) as char
}

/// Whether `c` is one of the ASCII digits.
pub open spec fn is_digit(c: char) -> bool {
    48 <= (c as u32) && (c as u32) <= 57
}

/// The decimal representation of `n`, without leading zeros.
pub open spec fn decimal(n: nat) -> Seq<char>
    decreases n,
{
    if n < 10 {
        seq![digit_char(n)]
    } else {
        decimal(n / 10).push(digit_char(n % 10))
    }
}

/// The number that a string of digits denotes.
pub open spec fn digits_value(s: Seq<char>) -> nat
    decreases s.len(),
{
    if s.len() == 0 {
        0
    } else {
        digits_value(s.drop_last()) * 10 + ((s.last() as u32) - 48) as nat
    }
}

/// Every character of `s` is a digit.
pub open spec fn all_digits(s: Seq<char>) -> bool {
    forall|i: int| 0 <= i < s.len() ==> is_digit(#[trigger] s[i])
}

/// What std's `str::parse::<usize>` gives: an optional `+`, then one or
/// more digits whose value fits in a `usize`.
pub open spec fn parse_usize_spec(s: Seq<char>) -> Option<usize> {
    let d = if s.len() > 0 && s[0] == '+' {
        s.drop_first()
    } else {
        s
    };
    if d.len() > 0 && all_digits(d) && digits_value(d) <= usize::MAX {
        Some(digits_value(d) as usize)
    } else {
        None
    }
}

/// Appends the decimal representation of `n` to `s`.
pub fn push_decimal(s: &mut String, n: usize)
    ensures
        final(s)@ == old(s)@ + decimal(n as nat),
    decreases n,
{
    if n >= 10 {
        push_decimal(s, n / 10);
    }
    let d: u8 = (n % 10) as u8;
    let c = (48u8 + d) as char;
    string_push(s, c);
    proof {
        if n >= 10 {
            assert(decimal(n as nat) == decimal((n / 10) as nat).push(digit_char((n % 10) as nat)));
        }
        assert(final(s)@ =~= old(s)@ + decimal(n as nat));
    }
}

/// The decimal representation of `n` (std's `usize::to_string`).
pub fn decimal_string(n: usize) -> (res: String)
    ensures
        res@ == decimal(n as nat),
{
    let mut s = String::new();
    push_decimal(&mut s, n);
    assert(s@ =~= decimal(n as nat));
    s
}

/// The value of a prefix of a digit string is at most the value of the
/// whole string.
pub proof fn lemma_digits_value_prefix(s: Seq<char>, i: int)
    requires
        0 <= i <= s.len(),
        all_digits(s),
    ensures
        digits_value(s.subrange(0, i)) <= digits_value(s),
    decreases s.len(),
{
    if i < s.len() {
        let t = s.drop_last();
        assert(t.subrange(0, i) =~= s.subrange(0, i));
        assert(all_digits(t));
        lemma_digits_value_prefix(t, i);
    } else {
        assert(s.subrange(0, i) =~= s);
    }
}

/// Reads a `usize` as std's `str::parse::<usize>` does.
pub fn parse_usize(s: &str) -> (res: Option<usize>)
    ensures
        res == parse_usize_spec(s@),
{
    let n = s.unicode_len();
    let mut start: usize = 0;
    if n > 0 && s.get_char(0) == '+' {
        start = 1;
    }
    let ghost d = if s@.len() > 0 && s@[0] == '+' {
        s@.drop_first()
    } else {
        s@
    };
    assert(d =~= s@.subrange(start as int, n as int));
    if start >= n {
        return None;
    }
    let mut i: usize = start;
    let mut v: usize = 0;
    while i < n
        invariant
            n == s@.len(),
            start <= i <= n,
            start < n,
            d == s@.subrange(start as int, n as int),
            d == (if s@.len() > 0 && s@[0] == '+' {
                s@.drop_first()
            } else {
                s@
            }),
            all_digits(s@.subrange(start as int, i as int)),
            v == digits_value(s@.subrange(start as int, i as int)),
        decreases n - i,
    {
        let c = s.get_char(i);
        let u = c as u32;
        let ghost next = s@.subrange(start as int, i + 1);
        assert(next.drop_last() =~= s@.subrange(start as int, i as int));
        assert(next.last() == c);
        if u < 48 || u > 57 {
            assert(d[i - start] == c);
            assert(!is_digit(d[i - start]));
            assert(!all_digits(d));
            assert(parse_usize_spec(s@) is None);
            return None;
        }
        let dg: usize = (u - 48) as usize;
        assert(digits_value(next) == v * 10 + dg);
        if v > (usize::MAX - dg) / 10 {
            proof {
                assert(v * 10 + dg > usize::MAX) by (nonlinear_arith)
                    requires
                        v > (usize::MAX - dg) / 10,
                        dg <= 9,
                ;
                assert(all_digits(next));
                if all_digits(d) {
                    assert(next =~= d.subrange(0, i + 1 - start));
                    lemma_digits_value_prefix(d, i + 1 - start);
                    assert(digits_value(d) > usize::MAX);
                }
                assert(parse_usize_spec(s@) is None);
            }
            return None;
        }
        v = v * 10 + dg;
        i = i + 1;
    }
    assert(s@.subrange(start as int, n as int) =~= d);
    Some(v)
}

/// Reading back the decimal representation of a number gives the number.
pub proof fn lemma_parse_decimal(n: usize)
    ensures
        parse_usize_spec(decimal(n as nat)) == Some(n),
{
    lemma_decimal_digits(n as nat);
}

/// The decimal representation of `n` is a nonempty digit string that
/// denotes `n`.
pub proof fn lemma_decimal_digits(n: nat)
    ensures
        decimal(n).len() > 0,
        all_digits(decimal(n)),
        digits_value(decimal(n)) == n,
        decimal(n)[0] != '+',
    decreases n,
{
    if n >= 10 {
        lemma_decimal_digits(n / 10);
        let p = decimal(n / 10);
        assert(decimal(n).drop_last() =~= p);
        assert(decimal(n)[0] == p[0]);
        let d = (n % 10) as nat;
        assert((digit_char(d) as u32) == 48 + d);
        assert(digits_value(decimal(n)) == digits_value(p) * 10 + d);
        assert(digits_value(p) == n / 10);
        assert((n / 10) * 10 + d == n);
        assert forall|i: int| 0 <= i < decimal(n).len() implies is_digit(
            #[trigger] decimal(n)[i],
        ) by {
            if i < p.len() {
                assert(decimal(n)[i] == p[i]);
            }
        }
    } else {
        assert(decimal(n).drop_last() =~= Seq::<char>::empty());
        assert((digit_char(n) as u32) == 48 + n);
        assert(digits_value(decimal(n)) == digits_value(Seq::<char>::empty()) * 10 + n);
    }
}

} // verus!
