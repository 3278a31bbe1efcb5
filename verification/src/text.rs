//! Character-level text helpers shared by the policy and parsing code.

use vstd::prelude::*;

verus! {

/// `true` for the ASCII capital letters `A`..=`Z`.
pub open spec fn is_ascii_upper(c: char) -> bool {
    'A' <= c && c <= 'Z'
}

/// ASCII lower-casing of one character; other characters are unchanged.
pub open spec fn ascii_lower_char(c: char) -> char {
    if is_ascii_upper(c) {
        ((c as u32) + 32) as char
    } else {
        c
    }
}

/// ASCII lower-casing of a whole character sequence.
pub open spec fn ascii_lower(s: Seq<char>) -> Seq<char> {
    s.map_values(|c: char| ascii_lower_char(c))
}

/// The characters of `s`, in order.
pub fn chars_of(s: &str) -> (v: Vec<char>)
    ensures
        v@ == s@,
{
    let n = s.unicode_len();
    let mut v: Vec<char> = Vec::new();
    for i in 0..n
        invariant
            n == s@.len(),
            v@ == s@.subrange(0, i as int),
    {
        v.push(s.get_char(i));
        assert(v@ =~= s@.subrange(0, i + 1));
    }
    assert(v@ =~= s@);
    v
}

/// Whether two characters agree once ASCII letters are lower-cased.
pub fn char_eq_ignore_ascii_case(a: char, b: char) -> (r: bool)
    ensures
        r == (ascii_lower_char(a) == ascii_lower_char(b)),
{
    let la: u32 = if 'A' <= a && a <= 'Z' { (a as u32) + 32 } else { a as u32 };
    let lb: u32 = if 'A' <= b && b <= 'Z' { (b as u32) + 32 } else { b as u32 };
    la == lb
}

/// `str::eq_ignore_ascii_case`: equality after ASCII lower-casing.
pub fn eq_ignore_ascii_case(a: &str, b: &str) -> (r: bool)
    ensures
        r == (ascii_lower(a@) == ascii_lower(b@)),
{
    let va = chars_of(a);
    let vb = chars_of(b);
    if va.len() != vb.len() {
        assert(ascii_lower(a@).len() != ascii_lower(b@).len());
        return false;
    }
    let n = va.len();
    for i in 0..n
        invariant
            n == va@.len(),
            n == vb@.len(),
            va@ == a@,
            vb@ == b@,
            forall|j: int| 0 <= j < i ==> ascii_lower_char(va@[j]) == ascii_lower_char(vb@[j]),
    {
        if !char_eq_ignore_ascii_case(va[i], vb[i]) {
            assert(ascii_lower(a@)[i as int] != ascii_lower(b@)[i as int]);
            return false;
        }
    }
    assert(ascii_lower(a@) =~= ascii_lower(b@));
    true
}


/// `char::is_whitespace`: the Unicode `White_Space` property.
pub open spec fn is_whitespace(c: char) -> bool {
    let u = c as u32;
    ||| (0x09 <= u && u <= 0x0D)
    ||| u == 0x20
    ||| u == 0x85
    ||| u == 0xA0
    ||| u == 0x1680
    ||| (0x2000 <= u && u <= 0x200A)
    ||| u == 0x2028
    ||| u == 0x2029
    ||| u == 0x202F
    ||| u == 0x205F
    ||| u == 0x3000
}

/// Executable `char::is_whitespace`.
pub fn char_is_whitespace(c: char) -> (r: bool)
    ensures
        r == is_whitespace(c),
{
    let u = c as u32;
    (0x09 <= u && u <= 0x0D) || u == 0x20 || u == 0x85 || u == 0xA0 || u == 0x1680 || (0x2000
        <= u && u <= 0x200A) || u == 0x2028 || u == 0x2029 || u == 0x202F || u == 0x205F || u
        == 0x3000
}

/// `str::trim_start`: drop leading whitespace.
pub open spec fn trim_start(s: Seq<char>) -> Seq<char>
    decreases s.len(),
{
    if s.len() > 0 && is_whitespace(s[0]) {
        trim_start(s.drop_first())
    } else {
        s
    }
}

/// `str::trim_end`: drop trailing whitespace.
pub open spec fn trim_end(s: Seq<char>) -> Seq<char>
    decreases s.len(),
{
    if s.len() > 0 && is_whitespace(s.last()) {
        trim_end(s.drop_last())
    } else {
        s
    }
}

/// `str::trim`: drop leading and trailing whitespace.
pub open spec fn trim(s: Seq<char>) -> Seq<char> {
    trim_end(trim_start(s))
}

proof fn lemma_trim_start_at(s: Seq<char>, i: int)
    requires
        0 <= i <= s.len(),
        forall|k: int| 0 <= k < i ==> is_whitespace(s[k]),
        i == s.len() || !is_whitespace(s[i]),
    ensures
        trim_start(s) == s.subrange(i, s.len() as int),
    decreases i,
{
    if i == 0 {
        assert(s.subrange(0, s.len() as int) =~= s);
    } else {
        let t = s.drop_first();
        assert forall|k: int| 0 <= k < i - 1 implies is_whitespace(t[k]) by {
            assert(t[k] == s[k + 1]);
        }
        if i - 1 < t.len() {
            assert(t[i - 1] == s[i]);
        }
        lemma_trim_start_at(t, i - 1);
        assert(t.subrange(i - 1, t.len() as int) =~= s.subrange(i, s.len() as int));
    }
}

proof fn lemma_trim_end_at(s: Seq<char>, j: int)
    requires
        0 <= j <= s.len(),
        forall|k: int| j <= k < s.len() ==> is_whitespace(s[k]),
        j == 0 || !is_whitespace(s[j - 1]),
    ensures
        trim_end(s) == s.subrange(0, j),
    decreases s.len() - j,
{
    if j == s.len() {
        assert(s.subrange(0, j) =~= s);
    } else {
        let t = s.drop_last();
        assert forall|k: int| j <= k < t.len() implies is_whitespace(t[k]) by {
            assert(t[k] == s[k]);
        }
        if j > 0 {
            assert(t[j - 1] == s[j - 1]);
        }
        lemma_trim_end_at(t, j);
        assert(t.subrange(0, j) =~= s.subrange(0, j));
    }
}

/// `str::trim` on a string slice.
pub fn trim_str(s: &str) -> (r: &str)
    ensures
        r@ == trim(s@),
{
    let v = chars_of(s);
    let n = v.len();
    let mut i: usize = 0;
    while i < n && char_is_whitespace(v[i])
        invariant
            n == v@.len(),
            v@ == s@,
            i <= n,
            forall|k: int| 0 <= k < i ==> is_whitespace(v@[k]),
        decreases n - i,
    {
        i = i + 1;
    }
    let mut j: usize = n;
    while j > i && char_is_whitespace(v[j - 1])
        invariant
            n == v@.len(),
            v@ == s@,
            i <= j <= n,
            forall|k: int| j <= k < n ==> is_whitespace(v@[k]),
        decreases j,
    {
        j = j - 1;
    }
    proof {
        lemma_trim_start_at(s@, i as int);
        let t = s@.subrange(i as int, n as int);
        assert forall|k: int| (j - i) <= k < t.len() implies is_whitespace(t[k]) by {
            assert(t[k] == s@[k + i]);
        }
        if j > i {
            assert(t[j - i - 1] == s@[j - 1]);
        }
        lemma_trim_end_at(t, (j - i) as int);
        assert(t.subrange(0, (j - i) as int) =~= s@.subrange(i as int, j as int));
    }
    s.substring_char(i, j)
}

/// `str::join` over owned strings.
pub open spec fn join(parts: Seq<Seq<char>>, sep: Seq<char>) -> Seq<char>
    decreases parts.len(),
{
    if parts.len() == 0 {
        Seq::empty()
    } else if parts.len() == 1 {
        parts[0]
    } else {
        join(parts.drop_last(), sep) + sep + parts.last()
    }
}

/// The character views of a sequence of strings.
pub open spec fn views(v: Seq<String>) -> Seq<Seq<char>> {
    v.map_values(|s: String| s@)
}

/// Join strings with a separator.
pub fn join_strings(parts: &Vec<String>, sep: &str) -> (r: String)
    ensures
        r@ == join(views(parts@), sep@),
{
    let mut res = String::new();
    let n = parts.len();
    for i in 0..n
        invariant
            n == parts@.len(),
            res@ == join(views(parts@).take(i as int), sep@),
    {
        let ghost before = views(parts@).take(i as int);
        if i != 0 {
            res.append(sep);
        }
        res.append(parts[i].as_str());
        proof {
            let now = views(parts@).take(i + 1);
            assert(now.drop_last() =~= before);
            if i == 0 {
                assert(res@ =~= now[0]);
            }
        }
    }
    assert(views(parts@).take(n as int) =~= views(parts@));
    res
}


/// The character of a decimal digit.
pub open spec fn digit_char(d: nat) -> char {
    ((48 + d) as u32) as char
}

/// Decimal rendering of a natural number (`ToString` for unsigned integers).
pub open spec fn decimal(n: nat) -> Seq<char>
    decreases n,
{
    if n < 10 {
        seq![digit_char(n)]
    } else {
        decimal(n / 10).push(digit_char(n % 10))
    }
}

/// Decimal renderings are never empty.
pub proof fn lemma_decimal_nonempty(n: nat)
    ensures
        decimal(n).len() >= 1,
    decreases n,
{
    if n >= 10 {
        lemma_decimal_nonempty(n / 10);
    }
}

/// Law: distinct numbers have distinct decimal renderings.
pub proof fn lemma_decimal_injective(a: nat, b: nat)
    ensures
        decimal(a) == decimal(b) ==> a == b,
    decreases a,
{
    if decimal(a) == decimal(b) {
        if a < 10 && b < 10 {
            assert(decimal(a)[0] == digit_char(a));
            assert(decimal(b)[0] == digit_char(b));
            assert(digit_char(a) as u32 == 48 + a);
            assert(digit_char(b) as u32 == 48 + b);
        } else if a < 10 {
            lemma_decimal_nonempty(b / 10);
            assert(decimal(b).len() >= 2);
        } else if b < 10 {
            lemma_decimal_nonempty(a / 10);
            assert(decimal(a).len() >= 2);
        } else {
            let da = decimal(a);
            let db = decimal(b);
            assert(da.last() == digit_char(a % 10));
            assert(db.last() == digit_char(b % 10));
            assert(digit_char(a % 10) as u32 == 48 + a % 10);
            assert(digit_char(b % 10) as u32 == 48 + b % 10);
            assert(da.drop_last() =~= decimal(a / 10));
            assert(db.drop_last() =~= decimal(b / 10));
            lemma_decimal_injective(a / 10, b / 10);
        }
    }
}

fn digit_str(d: u64) -> (r: &'static str)
    requires
        d < 10,
    ensures
        r@ == seq![digit_char(d as nat)],
{
    proof {
        reveal_strlit("0");
        reveal_strlit("1");
        reveal_strlit("2");
        reveal_strlit("3");
        reveal_strlit("4");
        reveal_strlit("5");
        reveal_strlit("6");
        reveal_strlit("7");
        reveal_strlit("8");
        reveal_strlit("9");
    }
    match d {
        0 => "0",
        1 => "1",
        2 => "2",
        3 => "3",
        4 => "4",
        5 => "5",
        6 => "6",
        7 => "7",
        8 => "8",
        _ => "9",
    }
}

/// `u64::to_string`.
pub fn u64_to_decimal(n: u64) -> (r: String)
    ensures
        r@ == decimal(n as nat),
    decreases n,
{
    if n < 10 {
        String::from_str(digit_str(n))
    } else {
        let mut s = u64_to_decimal(n / 10);
        s.append(digit_str(n % 10));
        s
    }
}

/// `usize::to_string`.
pub fn usize_to_decimal(n: usize) -> (r: String)
    ensures
        r@ == decimal(n as nat),
{
    u64_to_decimal(n as u64)
}

/// `i64::to_string`.
pub open spec fn signed_decimal(v: int) -> Seq<char> {
    if v < 0 {
        seq!['-'] + decimal((-v) as nat)
    } else {
        decimal(v as nat)
    }
}

/// `i64::to_string`.
pub fn i64_to_decimal(v: i64) -> (r: String)
    ensures
        r@ == signed_decimal(v as int),
{
    if v < 0 {
        let mag: u64 = if v == i64::MIN {
            9223372036854775808u64
        } else {
            (-v) as u64
        };
        let mut s = String::from_str("-");
        let d = u64_to_decimal(mag);
        s.append(d.as_str());
        proof {
            reveal_strlit("-");
        }
        s
    } else {
        u64_to_decimal(v as u64)
    }
}


/// Character-sequence equality of two string slices (`==` on `str`).
pub fn str_eq(a: &str, b: &str) -> (r: bool)
    ensures
        r == (a@ == b@),
{
    let va = chars_of(a);
    let vb = chars_of(b);
    if va.len() != vb.len() {
        return false;
    }
    let n = va.len();
    for i in 0..n
        invariant
            n == va@.len(),
            n == vb@.len(),
            va@ == a@,
            vb@ == b@,
            forall|j: int| 0 <= j < i ==> va@[j] == vb@[j],
    {
        if va[i] != vb[i] {
            return false;
        }
    }
    assert(a@ =~= b@);
    true
}

/// `str::starts_with` for a string prefix.
pub open spec fn has_prefix(s: Seq<char>, p: Seq<char>) -> bool {
    p.len() <= s.len() && s.subrange(0, p.len() as int) == p
}

/// `str::starts_with`.
pub fn starts_with(s: &str, p: &str) -> (r: bool)
    ensures
        r == has_prefix(s@, p@),
{
    let vs = chars_of(s);
    let vp = chars_of(p);
    if vp.len() > vs.len() {
        return false;
    }
    let n = vp.len();
    for i in 0..n
        invariant
            n == vp@.len(),
            n <= vs@.len(),
            vs@ == s@,
            vp@ == p@,
            forall|j: int| 0 <= j < i ==> vs@[j] == vp@[j],
    {
        if vs[i] != vp[i] {
            assert(s@.subrange(0, n as int)[i as int] != p@[i as int]);
            return false;
        }
    }
    assert(s@.subrange(0, n as int) =~= p@);
    true
}

/// `str::trim_start_matches` with a non-empty literal pattern: strip the
/// pattern from the front as often as it occurs there.
pub open spec fn strip_prefix_all(s: Seq<char>, p: Seq<char>) -> Seq<char>
    decreases s.len(),
{
    if p.len() > 0 && has_prefix(s, p) {
        strip_prefix_all(s.subrange(p.len() as int, s.len() as int), p)
    } else {
        s
    }
}

/// Executable [`strip_prefix_all`].
pub fn trim_start_matches<'a>(s: &'a str, p: &str) -> (r: &'a str)
    requires
        p@.len() > 0,
    ensures
        r@ == strip_prefix_all(s@, p@),
    decreases s@.len(),
{
    if starts_with(s, p) {
        let n = s.unicode_len();
        let k = p.unicode_len();
        let rest = s.substring_char(k, n);
        trim_start_matches(rest, p)
    } else {
        s
    }
}

/// Numeric value of a hexadecimal digit character, or -1.
pub open spec fn hex_digit_value(c: char) -> int {
    if '0' <= c && c <= '9' {
        c as int - 48
    } else if 'a' <= c && c <= 'f' {
        c as int - 87
    } else if 'A' <= c && c <= 'F' {
        c as int - 55
    } else {
        -1
    }
}

/// Every character is a hexadecimal digit.
pub open spec fn all_hex_digits(d: Seq<char>) -> bool {
    forall|i: int| 0 <= i < d.len() ==> hex_digit_value(d[i]) >= 0
}

/// Value of a string of hexadecimal digits.
pub open spec fn hex_value(d: Seq<char>) -> nat
    decreases d.len(),
{
    if d.len() == 0 {
        0
    } else {
        (hex_value(d.drop_last()) * 16 + hex_digit_value(d.last())) as nat
    }
}

/// `from_str_radix(s, 16)` for an unsigned type whose maximum is `max`: an
/// optional `+`, then at least one hexadecimal digit, with no overflow.
pub open spec fn radix16(s: Seq<char>, max: nat) -> Option<nat> {
    let d = if s.len() > 0 && s[0] == '+' {
        s.drop_first()
    } else {
        s
    };
    if d.len() == 0 || !all_hex_digits(d) || hex_value(d) > max {
        None
    } else {
        Some(hex_value(d))
    }
}

fn hex_digit(c: char) -> (r: Option<u64>)
    ensures
        hex_digit_value(c) >= 0 ==> r == Some(hex_digit_value(c) as u64),
        hex_digit_value(c) < 0 ==> r is None,
{
    if '0' <= c && c <= '9' {
        Some((c as u64) - 48)
    } else if 'a' <= c && c <= 'f' {
        Some((c as u64) - 87)
    } else if 'A' <= c && c <= 'F' {
        Some((c as u64) - 55)
    } else {
        None
    }
}

proof fn lemma_hex_value_prefix(d: Seq<char>, k: int)
    requires
        0 <= k <= d.len(),
        all_hex_digits(d),
    ensures
        hex_value(d.take(k)) <= hex_value(d),
    decreases d.len() - k,
{
    if k < d.len() {
        lemma_hex_value_prefix(d, k + 1);
        assert(d.take(k + 1).drop_last() =~= d.take(k));
        assert(hex_digit_value(d.take(k + 1).last()) >= 0);
    } else {
        assert(d.take(k) =~= d);
    }
}

/// `from_str_radix(s, 16)` for characters `s[lo..hi]`, bounded by `max`.
pub fn parse_radix16(v: &Vec<char>, lo: usize, hi: usize, max: u64) -> (r: Option<u64>)
    requires
        lo <= hi <= v@.len(),
    ensures
        r == (match radix16(v@.subrange(lo as int, hi as int), max as nat) {
            Some(x) => Some(x as u64),
            None => None,
        }),
{
    let ghost s = v@.subrange(lo as int, hi as int);
    let mut start = lo;
    if lo < hi && v[lo] == '+' {
        start = lo + 1;
    }
    let ghost d = v@.subrange(start as int, hi as int);
    assert(d =~= (if s.len() > 0 && s[0] == '+' {
        s.drop_first()
    } else {
        s
    }));
    if start == hi {
        return None;
    }
    let mut acc: u64 = 0;
    let mut i = start;
    while i < hi
        invariant
            lo <= start <= i <= hi <= v@.len(),
            d == v@.subrange(start as int, hi as int),
            s == v@.subrange(lo as int, hi as int),
            d == (if s.len() > 0 && s[0] == '+' {
                s.drop_first()
            } else {
                s
            }),
            d.len() > 0,
            acc as nat == hex_value(d.take(i - start)),
            acc <= max,
            all_hex_digits(d.take(i - start)),
        decreases hi - i,
    {
        let dig = hex_digit(v[i]);
        let ghost pre = d.take(i - start);
        let ghost nxt = d.take(i + 1 - start);
        assert(nxt.drop_last() =~= pre);
        assert(nxt.last() == v@[i as int]);
        match dig {
            None => {
                assert(!all_hex_digits(d)) by {
                    assert(d[i - start] == v@[i as int]);
                }
                assert(radix16(s, max as nat) is None);
                return None;
            },
            Some(x) => {
                if x > max || acc > (max - x) / 16 {
                    proof {
                        assert(hex_value(nxt) == acc * 16 + x);
                        if x <= max {
                            assert(acc * 16 + x > max) by (nonlinear_arith)
                                requires
                                    acc > (max - x) / 16,
                                    x <= max,
                            ;
                        }
                        if all_hex_digits(d) {
                            lemma_hex_value_prefix(d, i + 1 - start);
                            assert(hex_value(d) > max);
                        }
                        assert(radix16(s, max as nat) is None);
                    }
                    return None;
                }
                proof {
                    assert(acc * 16 + x <= max) by (nonlinear_arith)
                        requires
                            acc <= (max - x) / 16,
                            x <= max,
                    ;
                }
                acc = acc * 16 + x;
            },
        }
        i = i + 1;
    }
    assert(d.take(hi - start) =~= d);
    Some(acc)
}


/// ASCII upper-casing of one character; other characters are unchanged.
pub open spec fn ascii_upper_char(c: char) -> char {
    if 'a' <= c && c <= 'z' {
        ((c as u32) - 32) as char
    } else {
        c
    }
}

/// ASCII upper-casing of a character sequence (`str::to_ascii_uppercase`).
pub open spec fn ascii_upper(s: Seq<char>) -> Seq<char> {
    s.map_values(|c: char| ascii_upper_char(c))
}

/// Hexadecimal parsing does not depend on ASCII case.
pub proof fn lemma_radix16_upper(t: Seq<char>, max: nat)
    ensures
        radix16(ascii_upper(t), max) == radix16(t, max),
{
    let u = ascii_upper(t);
    assert forall|i: int| 0 <= i < t.len() implies hex_digit_value(u[i]) == hex_digit_value(t[i])
        by {
        let c = t[i];
        if 'a' <= c && c <= 'z' {
            assert((((c as u32) - 32) as char) as u32 == (c as u32) - 32);
        }
    }
    let du = if u.len() > 0 && u[0] == '+' { u.drop_first() } else { u };
    let dt = if t.len() > 0 && t[0] == '+' { t.drop_first() } else { t };
    if t.len() > 0 {
        let c = t[0];
        if 'a' <= c && c <= 'z' {
            assert((((c as u32) - 32) as char) as u32 == (c as u32) - 32);
        }
        assert((u[0] == '+') == (t[0] == '+'));
    }
    assert(du.len() == dt.len());
    assert forall|i: int| 0 <= i < dt.len() implies hex_digit_value(du[i]) == hex_digit_value(dt[i])
        by {
        if t.len() > 0 && t[0] == '+' {
            assert(du[i] == u[i + 1]);
            assert(dt[i] == t[i + 1]);
        }
    }
    lemma_hex_value_same(du, dt);
}

proof fn lemma_hex_value_same(a: Seq<char>, b: Seq<char>)
    requires
        a.len() == b.len(),
        forall|i: int| 0 <= i < a.len() ==> hex_digit_value(a[i]) == hex_digit_value(b[i]),
    ensures
        hex_value(a) == hex_value(b),
        all_hex_digits(a) == all_hex_digits(b),
    decreases a.len(),
{
    if a.len() > 0 {
        lemma_hex_value_same(a.drop_last(), b.drop_last());
        assert(hex_digit_value(a.last()) == hex_digit_value(b.last()));
    }
}


/// Upper-case hexadecimal digit character.
pub open spec fn hex_upper_char(d: nat) -> char {
    if d < 10 {
        ((48 + d) as u32) as char
    } else {
        ((55 + d) as u32) as char
    }
}

/// `format!("{:04X}", v)` for a 16-bit value.
pub open spec fn hex4_upper(v: u16) -> Seq<char> {
    seq![
        hex_upper_char((v as nat / 4096) % 16),
        hex_upper_char((v as nat / 256) % 16),
        hex_upper_char((v as nat / 16) % 16),
        hex_upper_char(v as nat % 16),
    ]
}

fn hex_upper_str(d: u16) -> (r: &'static str)
    requires
        d < 16,
    ensures
        r@ == seq![hex_upper_char(d as nat)],
{
    proof {
        reveal_strlit("0");
        reveal_strlit("1");
        reveal_strlit("2");
        reveal_strlit("3");
        reveal_strlit("4");
        reveal_strlit("5");
        reveal_strlit("6");
        reveal_strlit("7");
        reveal_strlit("8");
        reveal_strlit("9");
        reveal_strlit("A");
        reveal_strlit("B");
        reveal_strlit("C");
        reveal_strlit("D");
        reveal_strlit("E");
        reveal_strlit("F");
    }
    match d {
        0 => "0",
        1 => "1",
        2 => "2",
        3 => "3",
        4 => "4",
        5 => "5",
        6 => "6",
        7 => "7",
        8 => "8",
        9 => "9",
        10 => "A",
        11 => "B",
        12 => "C",
        13 => "D",
        14 => "E",
        _ => "F",
    }
}

/// `format!("{:04X}", v)`.
pub fn u16_hex4_upper(v: u16) -> (r: String)
    ensures
        r@ == hex4_upper(v),
{
    let mut s = String::from_str(hex_upper_str((v / 4096) % 16));
    s.append(hex_upper_str((v / 256) % 16));
    s.append(hex_upper_str((v / 16) % 16));
    s.append(hex_upper_str(v % 16));
    assert(s@ =~= hex4_upper(v));
    s
}


/// Lower-casing leaves a sequence without ASCII capitals unchanged.
pub proof fn lemma_ascii_lower_id(t: Seq<char>)
    requires
        forall|i: int| 0 <= i < t.len() ==> !is_ascii_upper(#[trigger] t[i]),
    ensures
        ascii_lower(t) == t,
{
    assert(ascii_lower(t) =~= t);
}

/// `p` occurs in `s` starting at position `i`.
pub open spec fn occurs_at(s: Seq<char>, p: Seq<char>, i: int) -> bool {
    0 <= i && i + p.len() <= s.len() && s.subrange(i, i + p.len()) == p
}

/// `p` occurs somewhere in `s` (`str::contains`).
pub open spec fn contains_seq(s: Seq<char>, p: Seq<char>) -> bool {
    exists|i: int| occurs_at(s, p, i)
}

/// Whether the characters `p` occur in the characters `s`.
pub fn chars_contain(s: &Vec<char>, p: &Vec<char>) -> (r: bool)
    ensures
        r == contains_seq(s@, p@),
{
    if p.len() > s.len() {
        return false;
    }
    let last = s.len() - p.len();
    let mut i: usize = 0;
    while i <= last
        invariant
            last == s.len() - p.len(),
            p.len() <= s.len(),
            i <= last + 1,
            forall|k: int| 0 <= k < i ==> !occurs_at(s@, p@, k),
        decreases last + 1 - i,
    {
        let mut j: usize = 0;
        let mut same = true;
        while j < p.len()
            invariant
                i <= last,
                last == s.len() - p.len(),
                j <= p.len(),
                same <==> (forall|t: int| 0 <= t < j ==> s@[i + t] == p@[t]),
            decreases p.len() - j,
        {
            if s[i + j] != p[j] {
                same = false;
            }
            j = j + 1;
        }
        if same {
            assert(s@.subrange(i as int, i + p.len()) =~= p@);
            assert(occurs_at(s@, p@, i as int));
            return true;
        }
        proof {
            let t = choose|t: int| 0 <= t < p.len() && s@[i + t] != p@[t];
            assert(s@.subrange(i as int, i + p.len())[t] == s@[i + t]);
        }
        i = i + 1;
    }
    false
}

/// The characters of `s`, ASCII letters lower-cased.
pub fn lower_chars(s: &str) -> (v: Vec<char>)
    ensures
        v@ == ascii_lower(s@),
{
    let c = chars_of(s);
    let mut v: Vec<char> = Vec::new();
    for i in 0..c.len()
        invariant
            c@ == s@,
            v@ == ascii_lower(s@).take(i as int),
    {
        let ch = c[i];
        let low = if 'A' <= ch && ch <= 'Z' {
            let code: u32 = ch as u32;
            let b: u8 = (code as u8) + 32;
            assert((code as u8) as int == code as int);
            b as char
        } else {
            ch
        };
        v.push(low);
        assert(v@ =~= ascii_lower(s@).take(i + 1));
    }
    assert(ascii_lower(s@).take(c.len() as int) =~= ascii_lower(s@));
    v
}

/// `s.to_ascii_lowercase().contains(p)` for a pattern `p`.
pub fn lower_contains(s: &str, p: &str) -> (r: bool)
    ensures
        r == contains_seq(ascii_lower(s@), p@),
{
    let l = lower_chars(s);
    let q = chars_of(p);
    chars_contain(&l, &q)
}

/// `format!("{:04x}", v)` for a 16-bit value: four lowercase digits.
pub open spec fn hex4_lower(v: u16) -> Seq<char> {
    seq![
        crate::digest::hex_lower_char((v as nat / 4096) % 16),
        crate::digest::hex_lower_char((v as nat / 256) % 16),
        crate::digest::hex_lower_char((v as nat / 16) % 16),
        crate::digest::hex_lower_char(v as nat % 16),
    ]
}

fn hex_lower_str(d: u16) -> (r: &'static str)
    requires
        d < 16,
    ensures
        r@ == seq![crate::digest::hex_lower_char(d as nat)],
{
    proof {
        reveal_strlit("0");
        reveal_strlit("1");
        reveal_strlit("2");
        reveal_strlit("3");
        reveal_strlit("4");
        reveal_strlit("5");
        reveal_strlit("6");
        reveal_strlit("7");
        reveal_strlit("8");
        reveal_strlit("9");
        reveal_strlit("a");
        reveal_strlit("b");
        reveal_strlit("c");
        reveal_strlit("d");
        reveal_strlit("e");
        reveal_strlit("f");
    }
    match d {
        0 => "0",
        1 => "1",
        2 => "2",
        3 => "3",
        4 => "4",
        5 => "5",
        6 => "6",
        7 => "7",
        8 => "8",
        9 => "9",
        10 => "a",
        11 => "b",
        12 => "c",
        13 => "d",
        14 => "e",
        _ => "f",
    }
}

/// `format!("{:04x}", v)`.
pub fn u16_hex4_lower(v: u16) -> (r: String)
    ensures
        r@ == hex4_lower(v),
{
    let mut s = String::from_str(hex_lower_str((v / 4096) % 16));
    s.append(hex_lower_str((v / 256) % 16));
    s.append(hex_lower_str((v / 16) % 16));
    s.append(hex_lower_str(v % 16));
    assert(s@ =~= hex4_lower(v));
    s
}

/// The text after the last `;` of `s`, or all of `s` when it has none
/// (`s.rsplit(';').next()`).
pub open spec fn after_last_semicolon(s: Seq<char>) -> Seq<char>
    decreases s.len(),
{
    if s.len() == 0 {
        s
    } else if s.last() == ';' {
        Seq::empty()
    } else {
        after_last_semicolon(s.drop_last()).push(s.last())
    }
}

/// The text after the last `;` of `s`, or all of `s` when it has none.
pub fn after_last_semicolon_str(s: &str) -> (r: &str)
    ensures
        r@ == after_last_semicolon(s@),
{
    let c = chars_of(s);
    let n = c.len();
    let mut start: usize = 0;
    for i in 0..n
        invariant
            n == s@.len(),
            c@ == s@,
            start <= i,
            after_last_semicolon(s@.take(i as int)) == s@.subrange(start as int, i as int),
    {
        proof {
            assert(s@.take(i + 1).drop_last() =~= s@.take(i as int));
            assert(s@.take(i + 1).last() == c@[i as int]);
        }
        if c[i] == ';' {
            start = i + 1;
            assert(after_last_semicolon(s@.take(i + 1)) =~= s@.subrange(start as int, i + 1));
        } else {
            assert(after_last_semicolon(s@.take(i + 1)) =~= s@.subrange(start as int, i + 1));
        }
    }
    assert(s@.take(n as int) =~= s@);
    s.substring_char(start, n)
}

} // verus!
