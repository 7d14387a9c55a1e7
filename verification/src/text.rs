//! String helpers on `&str`/`String`, specified over `Seq<char>`: equality,
//! whitespace trimming, prefix stripping, splitting, decimal parsing and rendering.
use vstd::prelude::*;
use vstd::string::*;

verus! {

/// Whether `a` and `b` hold the same characters.
pub fn str_eq(a: &str, b: &str) -> (r: bool)
    ensures
        r == (a@ == b@),
{
    let n: usize = a.unicode_len();
    let m: usize = b.unicode_len();
    if n != m {
        return false;
    }
    let mut i: usize = 0;
    while i < n
        invariant
            n == a@.len(),
            m == b@.len(),
            n == m,
            i <= n,
            forall|j: int| 0 <= j < i ==> a@[j] == b@[j],
        decreases n - i,
    {
        if a.get_char(i) != b.get_char(i) {
            return false;
        }
        i = i + 1;
    }
    assert(a@ =~= b@);
    true
}

/// Whether `s` is the empty string.
pub fn str_is_empty(s: &str) -> (r: bool)
    ensures
        r == (s@.len() == 0),
{
    s.unicode_len() == 0
}

/// The characters of Unicode's `White_Space` property (what `char::is_whitespace` tests).
pub open spec fn is_ws(c: char) -> bool {
    let v = c as u32;
    ||| 0x09 <= v <= 0x0d
    ||| v == 0x20
    ||| v == 0x85
    ||| v == 0xa0
    ||| v == 0x1680
    ||| 0x2000 <= v <= 0x200a
    ||| v == 0x2028
    ||| v == 0x2029
    ||| v == 0x202f
    ||| v == 0x205f
    ||| v == 0x3000
}

pub fn char_is_ws(c: char) -> (r: bool)
    ensures
        r == is_ws(c),
{
    let v: u32 = c as u32;
    (0x09 <= v && v <= 0x0d) || v == 0x20 || v == 0x85 || v == 0xa0 || v == 0x1680 || (0x2000
        <= v && v <= 0x200a) || v == 0x2028 || v == 0x2029 || v == 0x202f || v == 0x205f || v
        == 0x3000
}

/// `s` without its leading whitespace.
pub open spec fn trim_start_spec(s: Seq<char>) -> Seq<char>
    decreases s.len(),
{
    if s.len() > 0 && is_ws(s[0]) {
        trim_start_spec(s.drop_first())
    } else {
        s
    }
}

/// `s` without its trailing whitespace.
pub open spec fn trim_end_spec(s: Seq<char>) -> Seq<char>
    decreases s.len(),
{
    if s.len() > 0 && is_ws(s.last()) {
        trim_end_spec(s.drop_last())
    } else {
        s
    }
}

/// `s` without leading and trailing whitespace (what `str::trim` returns).
pub open spec fn trim_spec(s: Seq<char>) -> Seq<char> {
    trim_end_spec(trim_start_spec(s))
}

/// `s` with leading and trailing whitespace removed.
pub fn trim(s: &str) -> (r: &str)
    ensures
        r@ == trim_spec(s@),
{
    let n: usize = s.unicode_len();
    let mut i: usize = 0;
    assert(s@.subrange(0, n as int) =~= s@);
    while i < n && char_is_ws(s.get_char(i))
        invariant
            n == s@.len(),
            i <= n,
            trim_start_spec(s@) == trim_start_spec(s@.subrange(i as int, n as int)),
        decreases n - i,
    {
        assert(s@.subrange(i as int, n as int).drop_first() =~= s@.subrange(
            i + 1,
            n as int,
        ));
        i = i + 1;
    }
    let ghost start = s@.subrange(i as int, n as int);
    assert(trim_start_spec(start) == start);
    let mut j: usize = n;
    while j > i && char_is_ws(s.get_char(j - 1))
        invariant
            n == s@.len(),
            i <= j <= n,
            start == s@.subrange(i as int, n as int),
            trim_end_spec(start) == trim_end_spec(s@.subrange(i as int, j as int)),
        decreases j - i,
    {
        assert(s@.subrange(i as int, j as int).drop_last() =~= s@.subrange(
            i as int,
            j - 1,
        ));
        j = j - 1;
    }
    s.substring_char(i, j)
}

/// `s` without the prefix `p`, or `None` when `s` does not start with `p`.
pub open spec fn strip_prefix_spec(s: Seq<char>, p: Seq<char>) -> Option<Seq<char>> {
    if p.len() <= s.len() && s.take(p.len() as int) == p {
        Some(s.skip(p.len() as int))
    } else {
        None
    }
}

pub fn strip_prefix<'a>(s: &'a str, p: &str) -> (r: Option<&'a str>)
    ensures
        r matches Some(x) ==> strip_prefix_spec(s@, p@) == Some(x@),
        r is None ==> strip_prefix_spec(s@, p@) is None,
{
    let n: usize = s.unicode_len();
    let m: usize = p.unicode_len();
    if m > n {
        return None;
    }
    let mut i: usize = 0;
    while i < m
        invariant
            n == s@.len(),
            m == p@.len(),
            m <= n,
            i <= m,
            forall|k: int| 0 <= k < i ==> s@[k] == p@[k],
        decreases m - i,
    {
        if s.get_char(i) != p.get_char(i) {
            assert(s@.take(m as int)[i as int] != p@[i as int]);
            return None;
        }
        i = i + 1;
    }
    assert(s@.take(m as int) =~= p@);
    let rest = s.substring_char(m, n);
    assert(rest@ =~= s@.skip(m as int));
    Some(rest)
}

/// The pieces of `s` between occurrences of `sep` (what `str::split` yields for a
/// `char` separator): always at least one piece, empty pieces kept.
pub open spec fn split_spec(s: Seq<char>, sep: char) -> Seq<Seq<char>>
    decreases s.len(),
{
    if s.len() == 0 {
        seq![Seq::<char>::empty()]
    } else {
        let init = split_spec(s.drop_last(), sep);
        if s.last() == sep {
            init.push(Seq::<char>::empty())
        } else {
            init.update(init.len() - 1, init.last().push(s.last()))
        }
    }
}

pub proof fn lemma_split_nonempty(s: Seq<char>, sep: char)
    ensures
        split_spec(s, sep).len() >= 1,
    decreases s.len(),
{
    if s.len() > 0 {
        lemma_split_nonempty(s.drop_last(), sep);
    }
}

/// A string without the separator is one piece.
pub proof fn lemma_split_without_sep(s: Seq<char>, sep: char)
    requires
        !s.contains(sep),
    ensures
        split_spec(s, sep) == seq![s],
    decreases s.len(),
{
    if s.len() > 0 {
        let init = s.drop_last();
        assert(!init.contains(sep)) by {
            if init.contains(sep) {
                let k = choose|k: int| 0 <= k < init.len() && init[k] == sep;
                assert(s[k] == sep);
            }
        }
        lemma_split_without_sep(init, sep);
        assert(s.last() != sep) by {
            assert(s[s.len() - 1] == s.last());
        }
        assert(init.push(s.last()) =~= s);
        assert(split_spec(s, sep) =~= seq![s]);
    } else {
        assert(s =~= Seq::<char>::empty());
    }
}

/// Splitting at a separator splits the two sides independently.
pub proof fn lemma_split_concat(a: Seq<char>, b: Seq<char>, sep: char)
    ensures
        split_spec(a + seq![sep] + b, sep) == split_spec(a, sep) + split_spec(b, sep),
    decreases b.len(),
{
    let x = a + seq![sep] + b;
    if b.len() == 0 {
        assert(x.drop_last() =~= a);
        assert(x.last() == sep);
        assert(split_spec(b, sep) =~= seq![Seq::<char>::empty()]);
        assert(split_spec(x, sep) =~= split_spec(a, sep) + split_spec(b, sep));
    } else {
        let b0 = b.drop_last();
        lemma_split_concat(a, b0, sep);
        assert(x.drop_last() =~= a + seq![sep] + b0);
        assert(x.last() == b.last());
        lemma_split_nonempty(b0, sep);
        lemma_split_nonempty(a, sep);
        let sa = split_spec(a, sep);
        let sb0 = split_spec(b0, sep);
        if b.last() == sep {
            assert(split_spec(x, sep) =~= sa + split_spec(b, sep));
        } else {
            assert((sa + sb0).last() == sb0.last());
            assert((sa + sb0).update((sa + sb0).len() - 1, sb0.last().push(b.last())) =~= sa + sb0.update(
                sb0.len() - 1,
                sb0.last().push(b.last()),
            ));
            assert(split_spec(x, sep) =~= sa + split_spec(b, sep));
        }
    }
}

/// Joining pieces that hold no separator, then splitting, gives the pieces back.
pub proof fn lemma_split_join(parts: Seq<Seq<char>>, sep: char)
    requires
        parts.len() > 0,
        forall|i: int| 0 <= i < parts.len() ==> !(#[trigger] parts[i]).contains(sep),
    ensures
        split_spec(join_spec(parts, seq![sep]), sep) == parts,
    decreases parts.len(),
{
    if parts.len() == 1 {
        lemma_split_without_sep(parts[0], sep);
        assert(seq![parts[0]] =~= parts);
    } else {
        let init = parts.drop_last();
        assert forall|i: int| 0 <= i < init.len() implies !(#[trigger] init[i]).contains(sep) by {
            assert(init[i] == parts[i]);
        }
        lemma_split_join(init, sep);
        lemma_split_without_sep(parts.last(), sep);
        lemma_split_concat(join_spec(init, seq![sep]), parts.last(), sep);
        assert(init + seq![parts.last()] =~= parts);
    }
}

/// The views of a vector of strings.
pub open spec fn strings_view(v: Seq<String>) -> Seq<Seq<char>> {
    v.map_values(|x: String| x@)
}

/// Splits `s` at every `sep`.
pub fn split_char(s: &str, sep: char) -> (r: Vec<String>)
    ensures
        strings_view(r@) == split_spec(s@, sep),
{
    let n: usize = s.unicode_len();
    let mut segs: Vec<String> = Vec::new();
    let mut cur: String = String::new();
    let mut i: usize = 0;
    assert(s@.take(0) =~= Seq::<char>::empty());
    assert(strings_view(segs@).push(cur@) =~= split_spec(s@.take(0), sep));
    while i < n
        invariant
            n == s@.len(),
            i <= n,
            strings_view(segs@).push(cur@) == split_spec(s@.take(i as int), sep),
        decreases n - i,
    {
        let c = s.get_char(i);
        let ghost pre = s@.take(i as int);
        assert(s@.take(i + 1).drop_last() =~= pre);
        assert(s@.take(i + 1).last() == c);
        proof {
            lemma_split_nonempty(pre, sep);
        }
        if c == sep {
            let ghost old_segs = segs@;
            let done = cur;
            segs.push(done);
            cur = String::new();
            assert(strings_view(segs@) =~= strings_view(old_segs).push(done@));
            assert(strings_view(segs@).push(cur@) =~= split_spec(s@.take(i + 1), sep));
        } else {
            let one = s.substring_char(i, i + 1);
            assert(one@ =~= seq![c]);
            let ghost old_cur = cur@;
            cur.append(one);
            assert(cur@ =~= old_cur.push(c));
            assert(strings_view(segs@).push(cur@) =~= split_spec(s@.take(i + 1), sep));
        }
        i = i + 1;
    }
    assert(s@.take(n as int) =~= s@);
    let ghost old_segs = segs@;
    segs.push(cur);
    assert(strings_view(segs@) =~= strings_view(old_segs).push(cur@));
    segs
}

// ---- decimal numbers ------------------------------------------------------

pub open spec fn is_digit(c: char) -> bool {
    '0' as u32 <= c as u32 <= '9' as u32
}

pub open spec fn digit_value(c: char) -> int {
    c as u32 - '0' as u32
}

pub open spec fn all_digits(s: Seq<char>) -> bool {
    forall|k: int| 0 <= k < s.len() ==> is_digit(#[trigger] s[k])
}

/// The number written by the decimal digits `s`.
pub open spec fn digits_value(s: Seq<char>) -> int
    decreases s.len(),
{
    if s.len() == 0 {
        0
    } else {
        digits_value(s.drop_last()) * 10 + digit_value(s.last())
    }
}

/// The integer that `s` spells in decimal: an optional `+` or `-` followed by at least one
/// digit, nothing else (the grammar of `i32`'s `FromStr`).
pub open spec fn int_spec(s: Seq<char>) -> Option<int> {
    if s.len() > 0 && (s[0] == '+' || s[0] == '-') {
        let d = s.drop_first();
        if d.len() == 0 || !all_digits(d) {
            None
        } else if s[0] == '-' {
            Some(-digits_value(d))
        } else {
            Some(digits_value(d))
        }
    } else if s.len() == 0 || !all_digits(s) {
        None
    } else {
        Some(digits_value(s))
    }
}

/// What `s.parse::<i32>()` gives: the spelled integer when it fits in `i32`.
pub open spec fn parse_i32_spec(s: Seq<char>) -> Option<i32> {
    match int_spec(s) {
        Some(v) => if i32::MIN <= v <= i32::MAX {
            Some(v as i32)
        } else {
            None
        },
        None => None,
    }
}

pub proof fn lemma_digits_value_nonneg(s: Seq<char>)
    requires
        all_digits(s),
    ensures
        digits_value(s) >= 0,
    decreases s.len(),
{
    if s.len() > 0 {
        assert(all_digits(s.drop_last())) by {
            assert forall|k: int| 0 <= k < s.drop_last().len() implies is_digit(
                #[trigger] s.drop_last()[k],
            ) by {
                assert(s.drop_last()[k] == s[k]);
            }
        }
        lemma_digits_value_nonneg(s.drop_last());
        assert(is_digit(s[s.len() - 1]));
    }
}

const DIGITS_CAP: i64 = 4_000_000_000;

/// Parses `s` as an `i32` the way `str::parse::<i32>` does.
pub fn parse_i32(s: &str) -> (r: Option<i32>)
    ensures
        r == parse_i32_spec(s@),
{
    let n: usize = s.unicode_len();
    if n == 0 {
        return None;
    }
    let first = s.get_char(0);
    let neg: bool = first == '-';
    let start: usize = if first == '+' || first == '-' {
        1
    } else {
        0
    };
    if start == n {
        return None;
    }
    let ghost d = s@.skip(start as int);
    let mut acc: i64 = 0;
    let mut i: usize = start;
    assert(d.take(0) =~= Seq::<char>::empty());
    assert(digits_value(d.take(0)) == 0);
    assert(all_digits(d.take(0)));
    while i < n
        invariant
            n == s@.len(),
            n > 0,
            start == (if s@[0] == '+' || s@[0] == '-' {
                1usize
            } else {
                0usize
            }),
            neg == (s@[0] == '-'),
            start <= i <= n,
            start < n,
            d == s@.skip(start as int),
            all_digits(d.take(i - start)),
            0 <= acc <= DIGITS_CAP,
            acc == (if digits_value(d.take(i - start)) >= DIGITS_CAP {
                DIGITS_CAP as int
            } else {
                digits_value(d.take(i - start))
            }),
        decreases n - i,
    {
        let c = s.get_char(i);
        let k: usize = i - start;
        assert(d[k as int] == c);
        assert(d.take(k + 1).drop_last() =~= d.take(k as int));
        assert(d.take(k + 1).last() == c);
        let v: u32 = c as u32;
        if v < '0' as u32 || v > '9' as u32 {
            assert(!is_digit(d[k as int]));
            assert(!all_digits(d));
            assert(int_spec(s@) is None) by {
                if s@[0] == '+' || s@[0] == '-' {
                    assert(s@.drop_first() =~= d);
                } else {
                    assert(s@ =~= d);
                }
            }
            return None;
        }
        assert(all_digits(d.take(k + 1))) by {
            assert forall|q: int| 0 <= q < d.take(k + 1).len() implies is_digit(
                #[trigger] d.take(k + 1)[q],
            ) by {
                if q < k {
                    assert(d.take(k + 1)[q] == d.take(k as int)[q]);
                }
            }
        }
        let dv: i64 = (v - '0' as u32) as i64;
        proof {
            lemma_digits_value_nonneg(d.take(k as int));
        }
        if acc >= DIGITS_CAP {
            acc = DIGITS_CAP;
        } else {
            let next: i64 = acc * 10 + dv;
            acc = if next >= DIGITS_CAP {
                DIGITS_CAP
            } else {
                next
            };
        }
        i = i + 1;
    }
    assert(d.take(n - start) =~= d);
    let ghost sv = int_spec(s@);
    assert(sv == (if neg {
        Some(-digits_value(d))
    } else {
        Some(digits_value(d))
    })) by {
        if s@[0] == '+' || s@[0] == '-' {
            assert(s@.drop_first() =~= d);
        } else {
            assert(s@ =~= d);
        }
    }
    if neg {
        if acc > 2147483648 {
            None
        } else {
            Some((0 - acc) as i32)
        }
    } else {
        if acc > 2147483647 {
            None
        } else {
            Some(acc as i32)
        }
    }
}

/// The decimal digits of a natural number, most significant first, no leading zeros.
pub open spec fn nat_digits(n: nat) -> Seq<char>
    decreases n,
{
    if n < 10 {
        seq![digit_char(n)]
    } else {
        nat_digits(n / 10).push(digit_char(n % 10))
    }
}

pub open spec fn digit_char(d: nat) -> char {
    if d == 0 {
        '0'
    } else if d == 1 {
        '1'
    } else if d == 2 {
        '2'
    } else if d == 3 {
        '3'
    } else if d == 4 {
        '4'
    } else if d == 5 {
        '5'
    } else if d == 6 {
        '6'
    } else if d == 7 {
        '7'
    } else if d == 8 {
        '8'
    } else {
        '9'
    }
}

/// How `i64`'s `Display` writes `n`: a `-` for negatives, then the digits.
/// `s` padded on the left with zeros to `width` characters.
pub open spec fn zero_pad(s: Seq<char>, width: nat) -> Seq<char> {
    if s.len() >= width {
        s
    } else {
        Seq::new((width - s.len()) as nat, |i: int| '0') + s
    }
}

pub open spec fn int_to_dec(n: int) -> Seq<char> {
    if n < 0 {
        seq!['-'] + nat_digits((-n) as nat)
    } else {
        nat_digits(n as nat)
    }
}

fn digit_str(d: u64) -> (r: &'static str)
    requires
        d < 10,
    ensures
        r@ == seq![digit_char(d as nat)],
{
    if d == 0 {
        proof {
            reveal_strlit("0");
        }
        "0"
    } else if d == 1 {
        proof {
            reveal_strlit("1");
        }
        "1"
    } else if d == 2 {
        proof {
            reveal_strlit("2");
        }
        "2"
    } else if d == 3 {
        proof {
            reveal_strlit("3");
        }
        "3"
    } else if d == 4 {
        proof {
            reveal_strlit("4");
        }
        "4"
    } else if d == 5 {
        proof {
            reveal_strlit("5");
        }
        "5"
    } else if d == 6 {
        proof {
            reveal_strlit("6");
        }
        "6"
    } else if d == 7 {
        proof {
            reveal_strlit("7");
        }
        "7"
    } else if d == 8 {
        proof {
            reveal_strlit("8");
        }
        "8"
    } else {
        proof {
            reveal_strlit("9");
        }
        "9"
    }
}

/// The decimal digits of `m`.
pub fn u64_to_string(m: u64) -> (r: String)
    ensures
        r@ == nat_digits(m as nat),
{
    let mut out = String::from_str(digit_str(m % 10));
    let mut q: u64 = m / 10;
    // `out` holds the low digits of `m`, `q` what is left above them.
    while q > 0
        invariant
            q > 0 ==> nat_digits(m as nat) == nat_digits(q as nat) + out@,
            q == 0 ==> nat_digits(m as nat) == out@,
        decreases q,
    {
        let d = digit_str(q % 10);
        let ghost before = out@;
        out = String::from_str(d).concat(out.as_str());
        if q >= 10 {
            assert(nat_digits(q as nat) == nat_digits((q / 10) as nat).push(digit_char(
                (q % 10) as nat,
            )));
            assert(nat_digits(q as nat) + before =~= nat_digits((q / 10) as nat) + out@);
        } else {
            assert(nat_digits(q as nat) =~= seq![digit_char(q as nat)]);
            assert(nat_digits(q as nat) + before =~= out@);
        }
        q = q / 10;
    }
    out
}

/// `n` written in decimal, as `i64`'s `to_string` writes it.
pub fn i64_to_string(n: i64) -> (r: String)
    ensures
        r@ == int_to_dec(n as int),
{
    if n < 0 {
        let mag: u64 = if n == i64::MIN {
            9223372036854775808u64
        } else {
            (0 - n) as u64
        };
        let digits = u64_to_string(mag);
        proof {
            reveal_strlit("-");
        }
        let out = String::from_str("-").concat(digits.as_str());
        assert(out@ =~= seq!['-'] + nat_digits((-n) as nat));
        out
    } else {
        u64_to_string(n as u64)
    }
}

/// `a` followed by `b`.
pub fn concat2(a: &str, b: &str) -> (r: String)
    ensures
        r@ == a@ + b@,
{
    String::from_str(a).concat(b)
}

/// `a`, `b` and `c` one after the other.
pub fn concat3(a: &str, b: &str, c: &str) -> (r: String)
    ensures
        r@ == a@ + b@ + c@,
{
    String::from_str(a).concat(b).concat(c)
}

/// The pieces of `parts` with `sep` between each pair (what `[String]::join` builds).
pub open spec fn join_spec(parts: Seq<Seq<char>>, sep: Seq<char>) -> Seq<char>
    decreases parts.len(),
{
    if parts.len() == 0 {
        Seq::<char>::empty()
    } else if parts.len() == 1 {
        parts[0]
    } else {
        join_spec(parts.drop_last(), sep) + sep + parts.last()
    }
}

/// Joins `parts` with `sep`.
pub fn join(parts: &Vec<String>, sep: &str) -> (r: String)
    ensures
        r@ == join_spec(strings_view(parts@), sep@),
{
    let mut out = String::new();
    let mut i: usize = 0;
    while i < parts.len()
        invariant
            i <= parts@.len(),
            out@ == join_spec(strings_view(parts@.take(i as int)), sep@),
        decreases parts@.len() - i,
    {
        let ghost before = out@;
        if i > 0 {
            out.append(sep);
        }
        out.append(parts[i].as_str());
        assert(strings_view(parts@.take(i + 1)).drop_last() =~= strings_view(
            parts@.take(i as int),
        ));
        assert(strings_view(parts@.take(i + 1)).last() == parts@[i as int]@);
        if i == 0 {
            assert(strings_view(parts@.take(1)) =~= seq![parts@[0]@]);
            assert(out@ =~= join_spec(strings_view(parts@.take(1)), sep@));
        }
        i = i + 1;
    }
    assert(parts@.take(parts@.len() as int) =~= parts@);
    out
}

} // verus!
