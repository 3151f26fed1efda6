use vstd::prelude::*;

verus! {

/// Appends one character, by `String::push`.
#[verifier::external_body]
fn push_char(s: &mut String, c: char)
    ensures
        final(s)@ == old(s)@.push(c),
{
    s.push(c);
}

/// The characters of `s`, in order.
pub fn chars_of(s: &str) -> (v: Vec<char>)
    ensures
        v@ == s@,
{
    let mut v: Vec<char> = Vec::new();
    for c in it: s.chars()
        invariant
            v@ == it.seq().take(it.index() as int),
            it.seq() == s@,
    {
        v.push(c);
    }
    v
}

/// A string made of the given characters.
pub fn string_of(cs: &[char]) -> (s: String)
    ensures
        s@ == cs@,
{
    let mut s = String::new();
    let mut i: usize = 0;
    while i < cs.len()
        invariant
            i <= cs@.len(),
            s@ == cs@.subrange(0, i as int),
        decreases cs@.len() - i,
    {
        push_char(&mut s, cs[i]);
        assert(cs@.subrange(0, i + 1) =~= cs@.subrange(0, i as int).push(cs@[i as int]));
        i = i + 1;
    }
    assert(cs@.subrange(0, cs@.len() as int) =~= cs@);
    s
}

/// Whether `s` ends with `suffix`.
pub fn ends_with(s: &str, suffix: &str) -> (r: bool)
    ensures
        r == suffix@.is_suffix_of(s@),
{
    let a = chars_of(s);
    let b = chars_of(suffix);
    if b.len() > a.len() {
        return false;
    }
    let alen = a.len();
    let off = alen - b.len();
    let mut i: usize = 0;
    while i < b.len()
        invariant
            a@ == s@,
            b@ == suffix@,
            alen == a@.len(),
            off == a@.len() - b@.len(),
            i <= b@.len(),
            forall|j: int| 0 <= j < i ==> b@[j] == a@[off + j],
        decreases b@.len() - i,
    {
        if a[off + i] != b[i] {
            assert(s@.subrange(off as int, s@.len() as int)[i as int] != suffix@[i as int]);
            return false;
        }
        i = i + 1;
    }
    assert(suffix@ =~= s@.subrange(off as int, s@.len() as int));
    true
}

/// Whether `s` starts with `prefix`.
pub fn starts_with(s: &str, prefix: &str) -> (r: bool)
    ensures
        r == prefix@.is_prefix_of(s@),
{
    let a = chars_of(s);
    let b = chars_of(prefix);
    if b.len() > a.len() {
        return false;
    }
    let mut i: usize = 0;
    while i < b.len()
        invariant
            a@ == s@,
            b@ == prefix@,
            b@.len() <= a@.len(),
            i <= b@.len(),
            forall|j: int| 0 <= j < i ==> b@[j] == a@[j],
        decreases b@.len() - i,
    {
        if a[i] != b[i] {
            assert(s@.subrange(0, prefix@.len() as int)[i as int] != prefix@[i as int]);
            return false;
        }
        i = i + 1;
    }
    assert(prefix@ =~= s@.subrange(0, prefix@.len() as int));
    true
}

/// Whether `needle` occurs somewhere in `hay`.
pub open spec fn occurs_in(needle: Seq<char>, hay: Seq<char>) -> bool {
    exists|i: int|
        0 <= i && i + needle.len() <= hay.len() && #[trigger] hay.subrange(i, i + needle.len())
            == needle
}

/// Whether `cs` holds `sub` starting at `i`.
fn occurs_at(cs: &Vec<char>, sub: &Vec<char>, i: usize) -> (r: bool)
    requires
        i + sub@.len() <= cs@.len(),
    ensures
        r == (cs@.subrange(i as int, i + sub@.len()) == sub@),
{
    let n = cs.len();
    let m = sub.len();
    let mut j: usize = 0;
    while j < m
        invariant
            m == sub@.len(),
            n == cs@.len(),
            i + m <= n,
            j <= m,
            forall|k: int| 0 <= k < j ==> cs@[i + k] == sub@[k],
        decreases m - j,
    {
        if cs[i + j] != sub[j] {
            assert(cs@.subrange(i as int, i + m)[j as int] != sub@[j as int]);
            return false;
        }
        j = j + 1;
    }
    assert(cs@.subrange(i as int, i + m) =~= sub@);
    true
}

/// Whether `needle` occurs somewhere in `hay`, as `str::contains` answers.
pub fn contains(hay: &str, needle: &str) -> (r: bool)
    ensures
        r == occurs_in(needle@, hay@),
{
    let a = chars_of(hay);
    let b = chars_of(needle);
    if b.len() > a.len() {
        return false;
    }
    let last = a.len() - b.len();
    let mut i: usize = 0;
    loop
        invariant
            a@ == hay@,
            b@ == needle@,
            last == a@.len() - b@.len(),
            i <= last,
            forall|k: int| 0 <= k < i ==> #[trigger] a@.subrange(k, k + b@.len()) != b@,
        decreases last - i,
    {
        if occurs_at(&a, &b, i) {
            return true;
        }
        if i == last {
            return false;
        }
        i = i + 1;
    }
}

/// Whether two strings hold the same characters.
pub fn str_eq(a: &str, b: &str) -> (r: bool)
    ensures
        r == (a@ == b@),
{
    let x = chars_of(a);
    let y = chars_of(b);
    if x.len() != y.len() {
        return false;
    }
    let mut i: usize = 0;
    while i < x.len()
        invariant
            x@ == a@,
            y@ == b@,
            x@.len() == y@.len(),
            i <= x@.len(),
            forall|j: int| 0 <= j < i ==> x@[j] == y@[j],
        decreases x@.len() - i,
    {
        if x[i] != y[i] {
            return false;
        }
        i = i + 1;
    }
    assert(a@ =~= b@);
    true
}

/// String order: character by character, a proper prefix coming first.
pub open spec fn lex_le(a: Seq<char>, b: Seq<char>) -> bool
    decreases a.len(),
{
    if a.len() == 0 {
        true
    } else if b.len() == 0 {
        false
    } else if a[0] != b[0] {
        a[0] < b[0]
    } else {
        lex_le(a.drop_first(), b.drop_first())
    }
}

pub proof fn lemma_lex_le_total(a: Seq<char>, b: Seq<char>)
    ensures
        lex_le(a, b) || lex_le(b, a),
    decreases a.len(),
{
    if a.len() > 0 && b.len() > 0 && a[0] == b[0] {
        lemma_lex_le_total(a.drop_first(), b.drop_first());
    }
}

pub proof fn lemma_lex_le_trans(a: Seq<char>, b: Seq<char>, c: Seq<char>)
    requires
        lex_le(a, b),
        lex_le(b, c),
    ensures
        lex_le(a, c),
    decreases a.len(),
{
    if a.len() > 0 && b.len() > 0 && c.len() > 0 && a[0] == b[0] && b[0] == c[0] {
        lemma_lex_le_trans(a.drop_first(), b.drop_first(), c.drop_first());
    }
}

/// Compares two strings in string order.
pub fn str_le(a: &str, b: &str) -> (r: bool)
    ensures
        r == lex_le(a@, b@),
{
    let x = chars_of(a);
    let y = chars_of(b);
    let mut i: usize = 0;
    assert(a@.subrange(0, a@.len() as int) =~= a@);
    assert(b@.subrange(0, b@.len() as int) =~= b@);
    while i < x.len() && i < y.len()
        invariant
            x@ == a@,
            y@ == b@,
            i <= x@.len(),
            i <= y@.len(),
            forall|j: int| 0 <= j < i ==> x@[j] == y@[j],
            lex_le(a@, b@) == lex_le(a@.subrange(i as int, a@.len() as int), b@.subrange(
                i as int,
                b@.len() as int,
            )),
        decreases x@.len() - i,
    {
        let ghost sa = a@.subrange(i as int, a@.len() as int);
        let ghost sb = b@.subrange(i as int, b@.len() as int);
        if x[i] != y[i] {
            assert(sa[0] == x@[i as int] && sb[0] == y@[i as int]);
            return x[i] < y[i];
        }
        assert(sa.drop_first() =~= a@.subrange(i + 1, a@.len() as int));
        assert(sb.drop_first() =~= b@.subrange(i + 1, b@.len() as int));
        i = i + 1;
    }
    i == x.len()
}

/// Whether `c` is white space in Unicode's sense (the `White_Space` property).
pub open spec fn is_space(c: char) -> bool {
    let u = c as u32;
    (0x09 <= u <= 0x0d) || u == 0x20 || u == 0x85 || u == 0xa0 || u == 0x1680 || (0x2000 <= u
        <= 0x200a) || u == 0x2028 || u == 0x2029 || u == 0x202f || u == 0x205f || u == 0x3000
}

pub fn is_space_char(c: char) -> (r: bool)
    ensures
        r == is_space(c),
{
    let u = c as u32;
    (0x09 <= u && u <= 0x0d) || u == 0x20 || u == 0x85 || u == 0xa0 || u == 0x1680 || (0x2000
        <= u && u <= 0x200a) || u == 0x2028 || u == 0x2029 || u == 0x202f || u == 0x205f || u
        == 0x3000
}

/// `s` without its leading white space.
pub open spec fn trim_start(s: Seq<char>) -> Seq<char>
    decreases s.len(),
{
    if s.len() > 0 && is_space(s[0]) {
        trim_start(s.drop_first())
    } else {
        s
    }
}

/// `s` without its trailing white space.
pub open spec fn trim_end(s: Seq<char>) -> Seq<char>
    decreases s.len(),
{
    if s.len() > 0 && is_space(s.last()) {
        trim_end(s.drop_last())
    } else {
        s
    }
}

/// `s` with the white space at both ends removed.
pub open spec fn trimmed(s: Seq<char>) -> Seq<char> {
    trim_end(trim_start(s))
}

/// The string with the leading and trailing white space removed, as `str::trim` does.
pub fn trim(s: &str) -> (r: String)
    ensures
        r@ == trimmed(s@),
{
    let cs = chars_of(s);
    let n = cs.len();
    let mut lo: usize = 0;
    assert(s@.subrange(0, n as int) =~= s@);
    while lo < n && is_space_char(cs[lo])
        invariant
            cs@ == s@,
            n == cs@.len(),
            lo <= n,
            trim_start(s@) == trim_start(s@.subrange(lo as int, n as int)),
        decreases n - lo,
    {
        assert(s@.subrange(lo as int, n as int).drop_first() =~= s@.subrange(lo + 1, n as int));
        lo = lo + 1;
    }
    assert(trim_start(s@) == s@.subrange(lo as int, n as int));
    let mut hi: usize = n;
    while hi > lo && is_space_char(cs[hi - 1])
        invariant
            cs@ == s@,
            n == cs@.len(),
            lo <= hi <= n,
            trimmed(s@) == trim_end(s@.subrange(lo as int, hi as int)),
        decreases hi,
    {
        assert(s@.subrange(lo as int, hi as int).drop_last() =~= s@.subrange(
            lo as int,
            hi - 1,
        ));
        hi = hi - 1;
    }
    let slice = vstd::slice::slice_subrange(cs.as_slice(), lo, hi);
    string_of(slice)
}

/// The string with its trailing white space removed, as `str::trim_end` does.
pub fn trim_end_str(s: &str) -> (r: String)
    ensures
        r@ == trim_end(s@),
{
    let cs = chars_of(s);
    let n = cs.len();
    let mut hi: usize = n;
    assert(s@.subrange(0, n as int) =~= s@);
    while hi > 0 && is_space_char(cs[hi - 1])
        invariant
            cs@ == s@,
            n == cs@.len(),
            hi <= n,
            trim_end(s@) == trim_end(s@.subrange(0, hi as int)),
        decreases hi,
    {
        assert(s@.subrange(0, hi as int).drop_last() =~= s@.subrange(0, hi - 1));
        hi = hi - 1;
    }
    let slice = vstd::slice::slice_subrange(cs.as_slice(), 0, hi);
    string_of(slice)
}

/// The character of the digit `d` (below 36): `0`-`9`, then lower-case letters.
pub open spec fn digit_char(d: nat) -> char {
    if d < 10 {
        (d + 48) as char
    } else {
        (d - 10 + 97) as char
    }
}

/// The numeral of `n` in base `radix`, without leading zeros.
pub open spec fn numeral(n: nat, radix: nat) -> Seq<char>
    decreases n,
{
    if n < radix || radix < 2 {
        seq![digit_char(n)]
    } else {
        proof {
            assert(n / radix < n) by (nonlinear_arith)
                requires
                    n >= radix,
                    radix >= 2,
            ;
        }
        numeral(n / radix, radix).push(digit_char(n % radix))
    }
}

/// The decimal numeral of `n`.
pub open spec fn decimal(n: nat) -> Seq<char> {
    numeral(n, 10)
}

/// The numeral of `n` in base `radix` (2 to 36), in lower case, as `u64::to_string`
/// (base 10) and `{:x}` (base 16) write it.
pub fn u64_to_radix(n: u64, radix: u64) -> (s: String)
    requires
        2 <= radix <= 36,
    ensures
        s@ == numeral(n as nat, radix as nat),
{
    let mut v: Vec<char> = Vec::new();
    let mut x = n;
    while x >= radix
        invariant
            2 <= radix <= 36,
            numeral(n as nat, radix as nat) == numeral(x as nat, radix as nat) + v@,
        decreases x,
    {
        let ghost before = v@;
        let d = (x % radix) as u8;
        let c = if d < 10 {
            (d + 48u8) as char
        } else {
            (d - 10 + 97u8) as char
        };
        assert(c == digit_char((x % radix) as nat));
        v.insert(0, c);
        assert(v@ =~= seq![c] + before);
        assert(numeral(x as nat, radix as nat) == numeral((x / radix) as nat, radix as nat).push(
            c,
        ));
        assert(numeral((x / radix) as nat, radix as nat).push(c) + before =~= numeral(
            (x / radix) as nat,
            radix as nat,
        ) + v@);
        x = x / radix;
    }
    let d = x as u8;
    let c = if d < 10 {
        (d + 48u8) as char
    } else {
        (d - 10 + 97u8) as char
    };
    let ghost before = v@;
    v.insert(0, c);
    assert(v@ =~= seq![c] + before);
    assert(numeral(x as nat, radix as nat) =~= seq![c]);
    string_of(v.as_slice())
}

/// The decimal numeral of `n`, as `u64::to_string` writes it.
pub fn u64_to_decimal(n: u64) -> (s: String)
    ensures
        s@ == decimal(n as nat),
{
    u64_to_radix(n, 10)
}

/// The value of `c` as a digit in base `radix`: `0`-`9`, then letters of either case.
pub open spec fn digit_value(c: char, radix: nat) -> Option<nat> {
    let u = c as u32;
    let d: int = if 48 <= u <= 57 {
        u - 48
    } else if 97 <= u <= 122 {
        u - 97 + 10
    } else if 65 <= u <= 90 {
        u - 65 + 10
    } else {
        99
    };
    if d < radix {
        Some(d as nat)
    } else {
        None
    }
}

/// Whether every character of `s` is a digit in base `radix`.
pub open spec fn all_digits(s: Seq<char>, radix: nat) -> bool {
    forall|i: int| 0 <= i < s.len() ==> (#[trigger] digit_value(s[i], radix)) is Some
}

/// The number that the digits `s` denote in base `radix`.
pub open spec fn digits_value(s: Seq<char>, radix: nat) -> nat
    decreases s.len(),
{
    if s.len() == 0 {
        0
    } else {
        digits_value(s.drop_last(), radix) * radix + digit_value(s.last(), radix)->Some_0
    }
}

/// What `u64::from_str_radix` makes of `s`: an optional `+`, then at least one digit,
/// and a value that fits in 64 bits.
pub open spec fn parse_radix(s: Seq<char>, radix: nat) -> Option<u64> {
    let body = if s.len() > 0 && s[0] == '+' {
        s.drop_first()
    } else {
        s
    };
    if body.len() == 0 || !all_digits(body, radix) || digits_value(body, radix) > u64::MAX {
        None
    } else {
        Some(digits_value(body, radix) as u64)
    }
}

proof fn lemma_digit_roundtrip(d: nat, radix: nat)
    requires
        2 <= radix <= 36,
        d < radix,
    ensures
        digit_value(digit_char(d), radix) == Some(d),
{
}

/// Reading back the numeral of `n` in base `radix` gives `n`.
pub proof fn lemma_numeral_roundtrip(n: nat, radix: nat)
    requires
        2 <= radix <= 36,
    ensures
        numeral(n, radix).len() > 0,
        all_digits(numeral(n, radix), radix),
        digits_value(numeral(n, radix), radix) == n,
        numeral(n, radix)[0] != '+',
    decreases n,
{
    if n < radix {
        lemma_digit_roundtrip(n, radix);
        assert(numeral(n, radix) =~= seq![digit_char(n)]);
        assert(numeral(n, radix).drop_last() =~= Seq::<char>::empty());
        assert(digits_value(Seq::<char>::empty(), radix) == 0);
        assert(digits_value(numeral(n, radix), radix) == 0 * radix + n);
    } else {
        assert(n / radix < n) by (nonlinear_arith)
            requires
                n >= radix,
                radix >= 2,
        ;
        lemma_numeral_roundtrip(n / radix, radix);
        let p = numeral(n / radix, radix);
        let c = digit_char(n % radix);
        lemma_digit_roundtrip(n % radix, radix);
        assert(numeral(n, radix) == p.push(c));
        assert(p.push(c).drop_last() =~= p);
        assert(p.push(c)[0] == p[0]);
        assert forall|i: int| 0 <= i < p.push(c).len() implies (#[trigger] digit_value(
            p.push(c)[i],
            radix,
        )) is Some by {
            if i < p.len() {
                assert(p.push(c)[i] == p[i]);
            }
        }
        assert(n == (n / radix) * radix + n % radix) by (nonlinear_arith)
            requires
                radix >= 2,
        ;
        assert(digits_value(p.push(c), radix) == digits_value(p, radix) * radix + (n % radix));
    }
}

/// Writing a number out in base `radix` and reading it back gives the number.
pub proof fn law_radix_roundtrip(n: u64, radix: nat)
    requires
        2 <= radix <= 36,
    ensures
        parse_radix(numeral(n as nat, radix), radix) == Some(n),
{
    lemma_numeral_roundtrip(n as nat, radix);
}

proof fn lemma_digits_value_grows(s: Seq<char>, radix: nat, c: char)
    requires
        radix >= 1,
        digit_value(c, radix) is Some,
    ensures
        digits_value(s.push(c), radix) >= digits_value(s, radix),
{
    assert(s.push(c).drop_last() =~= s);
    assert(digits_value(s, radix) * radix >= digits_value(s, radix)) by (nonlinear_arith)
        requires
            radix >= 1,
    ;
}

proof fn lemma_digits_value_prefix_grows(s: Seq<char>, radix: nat, i: int)
    requires
        radix >= 1,
        0 <= i <= s.len(),
        all_digits(s, radix),
    ensures
        digits_value(s, radix) >= digits_value(s.subrange(0, i), radix),
    decreases s.len() - i,
{
    if i < s.len() {
        lemma_digits_value_prefix_grows(s, radix, i + 1);
        assert(s.subrange(0, i + 1) =~= s.subrange(0, i).push(s[i]));
        lemma_digits_value_grows(s.subrange(0, i), radix, s[i]);
    } else {
        assert(s.subrange(0, i) =~= s);
    }
}

/// Reads `s` as a number in base `radix` (2 to 36), as `u64::from_str_radix` does.
pub fn parse_u64_radix(s: &str, radix: u32) -> (r: Option<u64>)
    requires
        2 <= radix <= 36,
    ensures
        r == parse_radix(s@, radix as nat),
{
    let cs = chars_of(s);
    let n = cs.len();
    let start: usize = if n > 0 && cs[0] == '+' {
        1
    } else {
        0
    };
    let ghost body = if s@.len() > 0 && s@[0] == '+' {
        s@.drop_first()
    } else {
        s@
    };
    assert(body =~= s@.subrange(start as int, n as int));
    if start == n {
        return None;
    }
    let mut v: u64 = 0;
    let mut i = start;
    while i < n
        invariant
            cs@ == s@,
            n == cs@.len(),
            start <= i <= n,
            body == s@.subrange(start as int, n as int),
            body == (if s@.len() > 0 && s@[0] == '+' {
                s@.drop_first()
            } else {
                s@
            }),
            2 <= radix <= 36,
            all_digits(body.subrange(0, i - start), radix as nat),
            v == digits_value(body.subrange(0, i - start), radix as nat),
        decreases n - i,
    {
        let c = cs[i];
        let u = c as u32;
        let d: u32 = if 48 <= u && u <= 57 {
            u - 48
        } else if 97 <= u && u <= 122 {
            u - 97 + 10
        } else if 65 <= u && u <= 90 {
            u - 65 + 10
        } else {
            99
        };
        assert(c == body[i - start]);
        assert(d >= radix <==> digit_value(c, radix as nat) is None);
        assert(d < radix ==> digit_value(c, radix as nat) == Some(d as nat));
        if d >= radix {
            assert(!all_digits(body, radix as nat)) by {
                assert(digit_value(body[i - start], radix as nat) is None);
            }
            assert(parse_radix(s@, radix as nat) is None);
            return None;
        }
        let ghost pre = body.subrange(0, i - start);
        assert(body.subrange(0, i - start + 1) =~= pre.push(c));
        assert(pre.push(c).drop_last() =~= pre);
        let m = v.checked_mul(radix as u64);
        let w = match m {
            Some(m) => m.checked_add(d as u64),
            None => None,
        };
        match w {
            Some(w) => {
                v = w;
            },
            None => {
                proof {
                    assert(digits_value(pre.push(c), radix as nat) == v * radix + d);
                    assert(digits_value(pre.push(c), radix as nat) > u64::MAX);
                    if all_digits(body, radix as nat) {
                        lemma_digits_value_prefix_grows(body, radix as nat, i - start + 1);
                        assert(digits_value(body, radix as nat) > u64::MAX);
                    }
                    assert(parse_radix(s@, radix as nat) is None);
                }
                return None;
            },
        }
        i = i + 1;
    }
    assert(body.subrange(0, n - start) =~= body);
    Some(v)
}

} // verus!
