use vstd::prelude::*;

verus! {

/// The characters of `s`, in order.
pub fn chars_of(s: &str) -> (r: Vec<char>)
    ensures
        r@ == s@,
{
    let mut r: Vec<char> = Vec::new();
    for c in it: s.chars()
        invariant
            r@ == it.seq().take(it.index() as int),
    {
        r.push(c);
    }
    r
}

/// Unicode `White_Space`, the set of characters that `char::is_whitespace` accepts.
pub open spec fn is_whitespace(c: char) -> bool {
    let v = c as u32;
    ||| 0x09 <= v <= 0x0d
    ||| v == 0x20
    ||| v == 0x85
    ||| v == 0xa0
    ||| v == 0x1680
    ||| 0x2000 <= v <= 0x200a
    ||| v == 0x2028
    ||| v == 0x2029
    ||| v == 0x202f
    ||| v == 0x205f
    ||| v == 0x3000
}

fn is_whitespace_exec(c: char) -> (b: bool)
    ensures
        b == is_whitespace(c),
{
    let v = c as u32;
    (0x09 <= v && v <= 0x0d) || v == 0x20 || v == 0x85 || v == 0xa0 || v == 0x1680 || (0x2000
        <= v && v <= 0x200a) || v == 0x2028 || v == 0x2029 || v == 0x202f || v == 0x205f || v
        == 0x3000
}

/// `s` without its trailing whitespace, as `str::trim_end` gives it.
pub open spec fn trim_end(s: Seq<char>) -> Seq<char>
    decreases s.len(),
{
    if s.len() > 0 && is_whitespace(s.last()) {
        trim_end(s.drop_last())
    } else {
        s
    }
}

/// Trailing whitespace does not change what is left after trimming.
pub proof fn lemma_trim_end_ignores_trailing_whitespace(s: Seq<char>, w: Seq<char>)
    requires
        forall|i: int| 0 <= i < w.len() ==> is_whitespace(#[trigger] w[i]),
    ensures
        trim_end(s + w) == trim_end(s),
    decreases w.len(),
{
    if w.len() > 0 {
        assert((s + w).drop_last() =~= s + w.drop_last());
        assert((s + w).last() == w.last());
        lemma_trim_end_ignores_trailing_whitespace(s, w.drop_last());
    } else {
        assert(s + w =~= s);
    }
}

/// The number of leading characters of `chars` that `trim_end` keeps.
pub fn trimmed_len(chars: &Vec<char>) -> (n: usize)
    ensures
        n <= chars.len(),
        chars@.take(n as int) == trim_end(chars@),
{
    let mut n = chars.len();
    assert(chars@.take(n as int) =~= chars@);
    while n > 0 && is_whitespace_exec(chars[n - 1])
        invariant
            n <= chars.len(),
            trim_end(chars@.take(n as int)) == trim_end(chars@),
        decreases n,
    {
        assert(chars@.take(n as int).drop_last() =~= chars@.take(n - 1));
        n = n - 1;
    }
    n
}

/// The value of `c` as a digit in the given radix, as `char::to_digit` gives it
/// for radixes up to 36; `None` when `c` is no such digit.
pub open spec fn digit_value(c: char, radix: nat) -> Option<nat> {
    let v = c as u32;
    let d: int = if 0x30 <= v <= 0x39 {
        v - 0x30
    } else if 0x61 <= v <= 0x7a {
        v - 0x61 + 10
    } else if 0x41 <= v <= 0x5a {
        v - 0x41 + 10
    } else {
        radix as int
    };
    if d < radix {
        Some(d as nat)
    } else {
        None
    }
}

/// Every character of `s` is a digit in the given radix.
pub open spec fn all_digits(s: Seq<char>, radix: nat) -> bool {
    forall|i: int| 0 <= i < s.len() ==> (#[trigger] digit_value(s[i], radix)) is Some
}

/// The number that the digits `s` write in the given radix, most significant first.
pub open spec fn digits_value(s: Seq<char>, radix: nat) -> nat
    decreases s.len(),
{
    if s.len() == 0 {
        0
    } else {
        digits_value(s.drop_last(), radix) * radix + digit_value(s.last(), radix).unwrap()
    }
}

/// The digits of `s` once a single leading `+` is dropped.
pub open spec fn unsigned_digits(s: Seq<char>) -> Seq<char> {
    if s.len() > 0 && s[0] == '+' {
        s.drop_first()
    } else {
        s
    }
}

/// What `from_str_radix` of an unsigned integer type with maximum `max` gives
/// for `s`: an optional `+`, then at least one digit, and a value no larger than `max`.
pub open spec fn parse_unsigned(s: Seq<char>, radix: nat, max: nat) -> Option<nat> {
    let d = unsigned_digits(s);
    if d.len() > 0 && all_digits(d, radix) && digits_value(d, radix) <= max {
        Some(digits_value(d, radix))
    } else {
        None
    }
}

proof fn lemma_digits_value_grows(s: Seq<char>, radix: nat, i: int)
    requires
        radix >= 1,
        0 <= i <= s.len(),
        all_digits(s, radix),
    ensures
        digits_value(s.take(i), radix) <= digits_value(s, radix),
    decreases s.len() - i,
{
    if i < s.len() {
        lemma_digits_value_grows(s, radix, i + 1);
        let p = s.take(i + 1);
        assert(p.drop_last() =~= s.take(i));
        let v = digits_value(s.take(i), radix);
        assert(digit_value(p.last(), radix) is Some) by {
            assert(p.last() == s[i]);
        }
        assert(v * radix >= v) by (nonlinear_arith)
            requires
                radix >= 1,
        ;
    } else {
        assert(s.take(i) =~= s);
    }
}

fn digit_of(c: char, radix: u32) -> (r: Option<u32>)
    requires
        2 <= radix <= 36,
    ensures
        match r {
            Some(d) => digit_value(c, radix as nat) == Some(d as nat),
            None => digit_value(c, radix as nat) is None,
        },
{
    let v = c as u32;
    let d: u32 = if 0x30 <= v && v <= 0x39 {
        v - 0x30
    } else if 0x61 <= v && v <= 0x7a {
        v - 0x61 + 10
    } else if 0x41 <= v && v <= 0x5a {
        v - 0x41 + 10
    } else {
        radix
    };
    if d < radix {
        Some(d)
    } else {
        None
    }
}

/// Parses the first `len` characters of `chars` as `from_str_radix` parses an
/// unsigned integer whose largest value is `max`.
pub fn parse_unsigned_prefix(chars: &Vec<char>, len: usize, radix: u32, max: u64) -> (r: Option<
    u64,
>)
    requires
        len <= chars.len(),
        2 <= radix <= 36,
    ensures
        match r {
            Some(v) => parse_unsigned(chars@.take(len as int), radix as nat, max as nat) == Some(
                v as nat,
            ),
            None => parse_unsigned(chars@.take(len as int), radix as nat, max as nat) is None,
        },
{
    let ghost s = chars@.take(len as int);
    let start: usize = if len > 0 && chars[0] == '+' {
        1
    } else {
        0
    };
    let ghost d = unsigned_digits(s);
    assert(d =~= chars@.subrange(start as int, len as int));
    if start == len {
        return None;
    }
    let mut acc: u64 = 0;
    let mut i: usize = start;
    assert(d.take(0) =~= Seq::<char>::empty());
    while i < len
        invariant
            start <= i <= len <= chars.len(),
            d =~= chars@.subrange(start as int, len as int),
            s == chars@.take(len as int),
            d == unsigned_digits(s),
            2 <= radix <= 36,
            all_digits(d.take(i - start), radix as nat),
            acc as nat == digits_value(d.take(i - start), radix as nat),
            acc <= max,
        decreases len - i,
    {
        let c = chars[i];
        let ghost p = d.take(i - start + 1);
        assert(p.drop_last() =~= d.take(i - start));
        assert(p.last() == c);
        match digit_of(c, radix) {
            None => {
                assert(!all_digits(d, radix as nat)) by {
                    assert(d[i - start] == c);
                }
                return None;
            },
            Some(x) => {
                assert((acc as u128) * (radix as u128) <= 0xffff_ffff_ffff_ffffu128 * 36) by (
                nonlinear_arith)
                    requires
                        acc <= 0xffff_ffff_ffff_ffffu64,
                        radix <= 36,
                ;
                let next: u128 = (acc as u128) * (radix as u128) + (x as u128);
                assert(next == digits_value(p, radix as nat));
                assert(all_digits(p, radix as nat)) by {
                    assert forall|j: int| 0 <= j < p.len() implies (#[trigger] digit_value(
                        p[j],
                        radix as nat,
                    )) is Some by {
                        if j < p.len() - 1 {
                            assert(p[j] == d.take(i - start)[j]);
                        }
                    }
                }
                if next > max as u128 {
                    proof {
                        if all_digits(d, radix as nat) {
                            lemma_digits_value_grows(d, radix as nat, i - start + 1);
                        }
                    }
                    return None;
                }
                acc = next as u64;
                i = i + 1;
            },
        }
    }
    assert(d.take(len - start) =~= d);
    Some(acc)
}

/// Where the line that ends at position `e` of `s` starts: just after the last
/// `'\n'` before `e`, or at 0.
pub open spec fn line_start(s: Seq<char>, e: int) -> int
    decreases e,
{
    if e <= 0 {
        0
    } else if s[e - 1] == '\n' {
        e
    } else {
        line_start(s, e - 1)
    }
}

/// The last item that `str::lines` yields for `s`: lines end at `'\n'`, a
/// `'\r'` just before that `'\n'` is dropped too, and a final line ending
/// starts no new line; an empty `s` has no lines.
pub open spec fn last_line(s: Seq<char>) -> Option<Seq<char>> {
    if s.len() == 0 {
        None
    } else {
        let ends_with_newline = s.last() == '\n';
        let e: int = if ends_with_newline {
            s.len() - 1
        } else {
            s.len() as int
        };
        let k = line_start(s, e);
        let end = if ends_with_newline && e > k && s[e - 1] == '\r' {
            e - 1
        } else {
            e
        };
        Some(s.subrange(k, end))
    }
}

proof fn lemma_line_start_bounds(s: Seq<char>, e: int)
    requires
        0 <= e <= s.len(),
    ensures
        0 <= line_start(s, e) <= e,
        forall|j: int| line_start(s, e) <= j < e ==> s[j] != '\n',
    decreases e,
{
    if e > 0 && s[e - 1] != '\n' {
        lemma_line_start_bounds(s, e - 1);
    }
}

/// The last line holds no line feed.
pub proof fn lemma_last_line_has_no_newline(s: Seq<char>)
    requires
        last_line(s) is Some,
    ensures
        forall|j: int|
            0 <= j < last_line(s).unwrap().len() ==> last_line(s).unwrap()[j] != '\n',
{
    let e: int = if s.last() == '\n' {
        s.len() - 1
    } else {
        s.len() as int
    };
    lemma_line_start_bounds(s, e);
}

/// The bounds `(start, end)` of `last_line(chars@)` within `chars`.
pub fn last_line_bounds(chars: &Vec<char>) -> (r: Option<(usize, usize)>)
    ensures
        match r {
            Some((k, end)) => k <= end <= chars.len() && last_line(chars@) == Some(
                chars@.subrange(k as int, end as int),
            ),
            None => last_line(chars@) is None,
        },
{
    let n = chars.len();
    if n == 0 {
        return None;
    }
    let ends_with_newline = chars[n - 1] == '\n';
    let e: usize = if ends_with_newline {
        n - 1
    } else {
        n
    };
    let mut k: usize = e;
    while k > 0 && chars[k - 1] != '\n'
        invariant
            k <= e <= n == chars.len(),
            line_start(chars@, k as int) == line_start(chars@, e as int),
        decreases k,
    {
        k = k - 1;
    }
    let end: usize = if ends_with_newline && e > k && chars[e - 1] == '\r' {
        e - 1
    } else {
        e
    };
    Some((k, end))
}

/// The decimal digit for `d < 10`.
pub open spec fn digit_char(d: nat) -> char {
    (0x30 + d) as char
}

/// `n` written in decimal, without leading zeros.
pub open spec fn decimal(n: nat) -> Seq<char>
    decreases n,
{
    if n < 10 {
        seq![digit_char(n)]
    } else {
        decimal(n / 10).push(digit_char(n % 10))
    }
}

proof fn lemma_decimal_digits(n: nat)
    ensures
        decimal(n).len() > 0,
        all_digits(decimal(n), 10),
        digits_value(decimal(n), 10) == n,
        decimal(n)[0] != '+',
    decreases n,
{
    if n < 10 {
        let s = decimal(n);
        assert(s.drop_last() =~= Seq::<char>::empty());
        assert(digit_value(s[0], 10) == Some(n));
        assert(digits_value(s.drop_last(), 10) == 0);
        assert(digits_value(s, 10) == digits_value(s.drop_last(), 10) * 10 + n);
    } else {
        lemma_decimal_digits(n / 10);
        let p = decimal(n / 10);
        let s = decimal(n);
        assert(s.drop_last() =~= p);
        assert(digit_value(s.last(), 10) == Some(n % 10));
        assert((n / 10) * 10 + n % 10 == n) by (nonlinear_arith);
        assert(digits_value(s, 10) == digits_value(p, 10) * 10 + n % 10);
        assert forall|i: int| 0 <= i < s.len() implies (#[trigger] digit_value(s[i], 10)) is Some by {
            if i < p.len() {
                assert(s[i] == p[i]);
            }
        }
        assert(s[0] == p[0]);
    }
}

/// A number written in decimal and followed by any whitespace, as a line
/// typed at a prompt is, reads back as that number when it fits.
pub proof fn lemma_typed_number_reads_back(n: nat, w: Seq<char>, max: nat)
    requires
        n <= max,
        forall|i: int| 0 <= i < w.len() ==> is_whitespace(#[trigger] w[i]),
    ensures
        parse_unsigned(trim_end(decimal(n) + w), 10, max) == Some(n),
{
    lemma_trim_end_ignores_trailing_whitespace(decimal(n), w);
    lemma_decimal_digits(n);
    let d = decimal(n);
    assert(!is_whitespace(d.last())) by {
        assert(digit_value(d[d.len() - 1], 10) is Some);
    }
    assert(trim_end(d) == d);
    assert(unsigned_digits(d) == d);
}

/// The digit for `d < 36`: `0`-`9`, then the letters from `A` (when `upper`)
/// or from `a`.
pub open spec fn radix_digit_char(d: nat, upper: bool) -> char {
    if d < 10 {
        (0x30 + d) as char
    } else if upper {
        (0x41 + d - 10) as char
    } else {
        (0x61 + d - 10) as char
    }
}

/// In every radix up to 36, each digit below the radix is read with its
/// value, in either case, and nothing but those digits is read as a digit.
pub proof fn lemma_digit_values(c: char, d: nat, radix: nat, upper: bool)
    requires
        2 <= radix <= 36,
    ensures
        d < radix ==> digit_value(radix_digit_char(d, upper), radix) == Some(d),
        digit_value(c, radix) == Some(d) ==> d < radix && (c == radix_digit_char(d, true) || c
            == radix_digit_char(d, false)),
{
}

/// `n` written in the given radix with the digits of [`radix_digit_char`],
/// without leading zeros.
pub open spec fn in_radix(n: nat, radix: nat, upper: bool) -> Seq<char>
    decreases n,
{
    if n < radix || radix < 2 {
        seq![radix_digit_char(n, upper)]
    } else {
        proof {
            assert(n / radix < n) by (nonlinear_arith)
                requires
                    n >= radix >= 2,
            ;
        }
        in_radix(n / radix, radix, upper).push(radix_digit_char(n % radix, upper))
    }
}

proof fn lemma_in_radix_digits(n: nat, radix: nat, upper: bool)
    requires
        2 <= radix <= 36,
    ensures
        in_radix(n, radix, upper).len() > 0,
        all_digits(in_radix(n, radix, upper), radix),
        digits_value(in_radix(n, radix, upper), radix) == n,
        in_radix(n, radix, upper)[0] != '+',
    decreases n,
{
    let s = in_radix(n, radix, upper);
    if n < radix {
        lemma_digit_values('0', n, radix, upper);
        assert(s.drop_last() =~= Seq::<char>::empty());
        assert(digits_value(s.drop_last(), radix) == 0);
        assert(digits_value(s, radix) == digits_value(s.drop_last(), radix) * radix + n);
    } else {
        assert(n / radix < n) by (nonlinear_arith)
            requires
                n >= radix >= 2,
        ;
        lemma_in_radix_digits(n / radix, radix, upper);
        let p = in_radix(n / radix, radix, upper);
        assert(n % radix < radix) by (nonlinear_arith)
            requires
                radix >= 2,
        ;
        lemma_digit_values('0', n % radix, radix, upper);
        assert(s.drop_last() =~= p);
        assert(digit_value(s.last(), radix) == Some(n % radix));
        assert((n / radix) * radix + n % radix == n) by (nonlinear_arith)
            requires
                radix >= 2,
        ;
        assert(digits_value(s, radix) == digits_value(p, radix) * radix + n % radix);
        assert forall|i: int| 0 <= i < s.len() implies (#[trigger] digit_value(s[i], radix)) is Some by {
            if i < p.len() {
                assert(s[i] == p[i]);
            }
        }
        assert(s[0] == p[0]);
    }
}

/// A number written in any radix up to 36, in upper or lower case, is read
/// back as that number when it fits.
pub proof fn lemma_radix_number_reads_back(n: nat, radix: nat, upper: bool, max: nat)
    requires
        2 <= radix <= 36,
        n <= max,
    ensures
        parse_unsigned(in_radix(n, radix, upper), radix, max) == Some(n),
        parse_unsigned(seq!['+'] + in_radix(n, radix, upper), radix, max) == Some(n),
{
    assert((seq!['+'] + in_radix(n, radix, upper)).drop_first() =~= in_radix(n, radix, upper));
    lemma_in_radix_digits(n, radix, upper);
    assert(unsigned_digits(in_radix(n, radix, upper)) == in_radix(n, radix, upper));
}

/// A number written in any radix that is larger than the largest value of
/// the type is refused.
pub proof fn lemma_radix_number_too_large(n: nat, radix: nat, upper: bool, max: nat)
    requires
        2 <= radix <= 36,
        n > max,
    ensures
        parse_unsigned(in_radix(n, radix, upper), radix, max) is None,
{
    lemma_in_radix_digits(n, radix, upper);
    assert(unsigned_digits(in_radix(n, radix, upper)) == in_radix(n, radix, upper));
}

/// The empty line, a lone `+`, a leading `-`, and a line with a character
/// that is no digit are refused.
pub proof fn lemma_malformed_numbers_refused(s: Seq<char>, radix: nat, max: nat, i: int)
    requires
        2 <= radix <= 36,
    ensures
        parse_unsigned(Seq::<char>::empty(), radix, max) is None,
        parse_unsigned(seq!['+'], radix, max) is None,
        s.len() > 0 && s[0] == '-' ==> parse_unsigned(s, radix, max) is None,
        0 < i < s.len() && digit_value(s[i], radix) is None ==> parse_unsigned(s, radix, max)
            is None,
{
    assert(seq!['+'].drop_first() =~= Seq::<char>::empty());
    if s.len() > 0 && s[0] == '-' {
        assert(unsigned_digits(s)[0] == '-');
        assert(digit_value(unsigned_digits(s)[0], radix) is None);
    }
    if 0 < i < s.len() && digit_value(s[i], radix) is None && s.len() > 0 && s[0] == '+' {
        assert(unsigned_digits(s)[i - 1] == s[i]);
    }
}

/// Space, tab, line feed, carriage return, vertical tab and form feed are
/// whitespace; digits, letters and `+` are not.
pub proof fn lemma_ascii_whitespace(c: char)
    ensures
        c == ' ' || c == '\t' || c == '\n' || c == '\r' || c == '\x0b' || c == '\x0c'
            ==> is_whitespace(c),
        ('0' <= c <= '9') || ('a' <= c <= 'z') || ('A' <= c <= 'Z') || c == '+' ==> !is_whitespace(
            c,
        ),
{
}

proof fn lemma_line_start_after_newline(s: Seq<char>, k: int, e: int)
    requires
        0 <= k <= e <= s.len(),
        k == 0 || s[k - 1] == '\n',
        forall|j: int| k <= j < e ==> s[j] != '\n',
    ensures
        line_start(s, e) == k,
    decreases e,
{
    if e > k {
        lemma_line_start_after_newline(s, k, e - 1);
    }
}

/// The last line of a buffer that ends with the line `l` (holding no line
/// feed) after the earlier lines `p`: `l` itself when nothing follows it,
/// `l` when a line feed or a carriage return and a line feed end it.
pub proof fn lemma_last_line_of(p: Seq<char>, l: Seq<char>)
    requires
        p.len() == 0 || p.last() == '\n',
        forall|j: int| 0 <= j < l.len() ==> l[j] != '\n',
    ensures
        l.len() > 0 ==> last_line(p + l) == Some(l),
        l.len() == 0 || l.last() != '\r' ==> last_line(p + l + seq!['\n']) == Some(l),
        last_line(p + l + seq!['\r', '\n']) == Some(l),
{
    let k = p.len() as int;
    if l.len() > 0 {
        let s = p + l;
        lemma_line_start_after_newline(s, k, s.len() as int);
        assert(s.last() == l.last());
        assert(s.subrange(k, s.len() as int) =~= l);
    }
    if l.len() == 0 || l.last() != '\r' {
        let s = p + l + seq!['\n'];
        lemma_line_start_after_newline(s, k, s.len() - 1);
        assert(s.subrange(k, s.len() - 1) =~= l);
        if s.len() - 1 > k {
            assert(s[s.len() - 2] == l.last());
        }
    }
    let s = p + l + seq!['\r', '\n'];
    lemma_line_start_after_newline(s, k, s.len() - 1);
    assert(s.subrange(k, s.len() - 2) =~= l);
}

} // verus!
