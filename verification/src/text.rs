//! Character-sequence primitives: decimal digits, searching, trimming and
//! numeric fields, with executable counterparts over `Vec<char>`.
use vstd::prelude::*;
use vstd::arithmetic::div_mod::*;

verus! {

pub open spec fn digit_char(d: int) -> char {
    if d == 0 {
        '0'
    } else if d == 1 {
        '1'
    } else if d == 2 {
        '2'
    } else if d == 3 {
        '3'
    } else if d == 4 {
        '4'
    } else if d == 5 {
        '5'
    } else if d == 6 {
        '6'
    } else if d == 7 {
        '7'
    } else if d == 8 {
        '8'
    } else {
        '9'
    }
}

pub open spec fn is_digit_char(c: char) -> bool {
    48 <= c as u32 <= 57
}

pub open spec fn digit_val(c: char) -> int {
    c as u32 - 48
}

pub open spec fn all_digits(s: Seq<char>) -> bool {
    forall|i: int| 0 <= i < s.len() ==> is_digit_char(#[trigger] s[i])
}

/// Numeric value of a digit string, most significant first.
pub open spec fn num_of(s: Seq<char>) -> int
    decreases s.len(),
{
    if s.len() == 0 {
        0
    } else {
        num_of(s.drop_last()) * 10 + digit_val(s.last())
    }
}

/// `v` written as exactly `width` decimal digits, zero padded.
pub open spec fn dec_digits(v: int, width: nat) -> Seq<char>
    decreases width,
{
    if width == 0 {
        Seq::empty()
    } else {
        dec_digits(v / 10, (width - 1) as nat).push(digit_char(v % 10))
    }
}

pub open spec fn pow10(w: nat) -> int
    decreases w,
{
    if w == 0 {
        1
    } else {
        10 * pow10((w - 1) as nat)
    }
}

pub proof fn lemma_dec_digits(v: int, width: nat)
    requires
        0 <= v < pow10(width),
    ensures
        dec_digits(v, width).len() == width,
        all_digits(dec_digits(v, width)),
        num_of(dec_digits(v, width)) == v,
    decreases width,
{
    if width > 0 {
        let w1 = (width - 1) as nat;
        assert(v / 10 < pow10(w1)) by {
            lemma_div_is_ordered(v, pow10(width) - 1, 10);
            lemma_fundamental_div_mod_converse(pow10(width) - 1, 10, pow10(w1) - 1, 9);
        };
        lemma_div_pos_is_pos(v, 10);
        lemma_dec_digits(v / 10, w1);
        let pre = dec_digits(v / 10, w1);
        let whole = dec_digits(v, width);
        assert(whole.drop_last() =~= pre);
        assert(digit_val(digit_char(v % 10)) == v % 10);
        lemma_fundamental_div_mod(v, 10);
    }
}

/// Index of the first occurrence of `c`, or the length when absent.
pub open spec fn first_index_of(s: Seq<char>, c: char) -> int
    decreases s.len(),
{
    if s.len() == 0 {
        0
    } else if s[0] == c {
        0
    } else {
        1 + first_index_of(s.subrange(1, s.len() as int), c)
    }
}

pub proof fn lemma_first_index_of(s: Seq<char>, c: char)
    ensures
        0 <= first_index_of(s, c) <= s.len(),
        first_index_of(s, c) < s.len() ==> s[first_index_of(s, c)] == c,
        forall|j: int| 0 <= j < first_index_of(s, c) ==> s[j] != c,
    decreases s.len(),
{
    if s.len() > 0 && s[0] != c {
        let tail = s.subrange(1, s.len() as int);
        lemma_first_index_of(tail, c);
        assert(forall|j: int| 1 <= j < s.len() ==> s[j] == tail[j - 1]);
    }
}

/// A sequence free of `c` has its first index at the end.
pub proof fn lemma_first_index_absent(s: Seq<char>, c: char)
    requires
        forall|j: int| 0 <= j < s.len() ==> s[j] != c,
    ensures
        first_index_of(s, c) == s.len(),
{
    lemma_first_index_of(s, c);
    if first_index_of(s, c) < s.len() {
        assert(s[first_index_of(s, c)] == c);
    }
}

/// The first index is determined by a witness occurrence.
pub proof fn lemma_first_index_witness(s: Seq<char>, c: char, i: int)
    requires
        0 <= i < s.len(),
        s[i] == c,
        forall|j: int| 0 <= j < i ==> s[j] != c,
    ensures
        first_index_of(s, c) == i,
{
    lemma_first_index_of(s, c);
    let f = first_index_of(s, c);
    if f < i {
        assert(s[f] != c);
    }
    if f > i {
        assert(s[i] != c);
    }
}

pub open spec fn is_space_char(c: char) -> bool {
    c == ' ' || c == '\t' || c == '\n' || c == '\r'
}

pub open spec fn trim_front(s: Seq<char>) -> Seq<char>
    decreases s.len(),
{
    if s.len() > 0 && is_space_char(s[0]) {
        trim_front(s.subrange(1, s.len() as int))
    } else {
        s
    }
}

pub open spec fn trim_back(s: Seq<char>) -> Seq<char>
    decreases s.len(),
{
    if s.len() > 0 && is_space_char(s[s.len() - 1]) {
        trim_back(s.subrange(0, s.len() - 1))
    } else {
        s
    }
}

pub open spec fn trim_spec(s: Seq<char>) -> Seq<char> {
    trim_back(trim_front(s))
}

/// A sequence without leading or trailing spaces trims to itself.
pub proof fn lemma_trim_no_spaces(s: Seq<char>)
    requires
        s.len() > 0,
        !is_space_char(s[0]),
        !is_space_char(s[s.len() - 1]),
    ensures
        trim_spec(s) == s,
{
}

pub fn is_space_exec(c: char) -> (r: bool)
    ensures
        r == is_space_char(c),
{
    c == ' ' || c == '\t' || c == '\n' || c == '\r'
}

pub fn is_digit_exec(c: char) -> (r: bool)
    ensures
        r == is_digit_char(c),
{
    let u = c as u32;
    48 <= u && u <= 57
}

/// Collects the characters of a string slice.
pub fn chars_of(s: &str) -> (v: Vec<char>)
    ensures
        v@ =~= s@,
{
    let n = s.unicode_len();
    let mut v: Vec<char> = Vec::new();
    let mut i: usize = 0;
    while i < n
        invariant
            0 <= i <= n,
            n == s@.len(),
            v@ =~= s@.subrange(0, i as int),
        decreases n - i,
    {
        v.push(s.get_char(i));
        assert(v@ =~= s@.subrange(0, i + 1 as int));
        i = i + 1;
    }
    v
}

/// Copies the subrange `[from, to)`.
pub fn sub_chars(v: &Vec<char>, from: usize, to: usize) -> (r: Vec<char>)
    requires
        from <= to <= v@.len(),
    ensures
        r@ =~= v@.subrange(from as int, to as int),
{
    let mut r: Vec<char> = Vec::new();
    let mut i: usize = from;
    while i < to
        invariant
            from <= i <= to <= v@.len(),
            r@ =~= v@.subrange(from as int, i as int),
        decreases to - i,
    {
        r.push(v[i]);
        assert(r@ =~= v@.subrange(from as int, i + 1 as int));
        i = i + 1;
    }
    r
}

/// Finds the first occurrence of `c` at or after `from`.
pub fn find_from(v: &Vec<char>, from: usize, c: char) -> (r: usize)
    requires
        from <= v@.len(),
    ensures
        r == from + first_index_of(v@.subrange(from as int, v@.len() as int), c),
        from <= r <= v@.len(),
        r < v@.len() ==> v@[r as int] == c,
        forall|j: int| from <= j < r ==> v@[j] != c,
{
    let ghost tail = v@.subrange(from as int, v@.len() as int);
    proof {
        lemma_first_index_of(tail, c);
    }
    let mut i: usize = from;
    while i < v.len() && v[i] != c
        invariant
            from <= i <= v@.len(),
            forall|j: int| from <= j < i ==> v@[j] != c,
            tail == v@.subrange(from as int, v@.len() as int),
        decreases v@.len() - i,
    {
        i = i + 1;
    }
    proof {
        if i < v@.len() {
            lemma_first_index_witness(tail, c, i - from);
        } else {
            assert(forall|j: int| 0 <= j < tail.len() ==> tail[j] != c);
            lemma_first_index_absent(tail, c);
        }
    }
    i
}

/// Whether the subrange `[from, to)` is all decimal digits.
pub fn check_digits(v: &Vec<char>, from: usize, to: usize) -> (r: bool)
    requires
        from <= to <= v@.len(),
    ensures
        r == all_digits(v@.subrange(from as int, to as int)),
{
    let ghost f = v@.subrange(from as int, to as int);
    let mut i: usize = from;
    while i < to
        invariant
            from <= i <= to <= v@.len(),
            f == v@.subrange(from as int, to as int),
            forall|j: int| 0 <= j < i - from ==> is_digit_char(#[trigger] f[j]),
        decreases to - i,
    {
        if !is_digit_exec(v[i]) {
            proof {
                assert(f[i - from] == v@[i as int]);
            }
            return false;
        }
        i = i + 1;
    }
    true
}

/// Reads the digit field `[from, to)` as a number; `None` unless it is a
/// non-empty run of decimal digits.
pub fn parse_field(v: &Vec<char>, from: usize, to: usize) -> (r: Option<u64>)
    requires
        from <= to <= v@.len(),
        to - from <= 9,
    ensures
        ({
            let f = v@.subrange(from as int, to as int);
            if from < to && all_digits(f) {
                r == Some((num_of(f) as u64)) && 0 <= num_of(f) < pow10((to - from) as nat)
            } else {
                r is None
            }
        }),
{
    let ghost f = v@.subrange(from as int, to as int);
    if from == to {
        return None;
    }
    let mut acc: u64 = 0;
    let mut i: usize = from;
    while i < to
        invariant
            from <= i <= to <= v@.len(),
            to - from <= 9,
            f == v@.subrange(from as int, to as int),
            all_digits(v@.subrange(from as int, i as int)),
            acc == num_of(v@.subrange(from as int, i as int)),
            acc < pow10((i - from) as nat),
        decreases to - i,
    {
        let c = v[i];
        if !is_digit_exec(c) {
            proof {
                assert(f[i - from] == c);
            }
            return None;
        }
        proof {
            let pre = v@.subrange(from as int, i as int);
            let post = v@.subrange(from as int, i + 1 as int);
            assert(post.drop_last() =~= pre);
            assert(post.last() == c);
            assert(pow10((i + 1 - from) as nat) == 10 * pow10((i - from) as nat));
            assert(pow10((to - from) as nat) <= 1000000000) by {
                reveal_with_fuel(pow10, 10);
            };
            lemma_pow10_mono((i + 1 - from) as nat, (to - from) as nat);
        }
        acc = acc * 10 + (c as u32 as u64 - 48);
        i = i + 1;
    }
    proof {
        assert(f =~= v@.subrange(from as int, to as int));
    }
    Some(acc)
}

/// A run of digits is a non-negative number below `pow10` of its length.
pub proof fn lemma_num_of_bounds(f: Seq<char>)
    requires
        all_digits(f),
    ensures
        0 <= num_of(f) < pow10(f.len()),
    decreases f.len(),
{
    if f.len() > 0 {
        let pre = f.drop_last();
        assert(all_digits(pre)) by {
            assert(forall|i: int| 0 <= i < pre.len() ==> pre[i] == f[i]);
        };
        lemma_num_of_bounds(pre);
        assert(is_digit_char(f.last()));
    }
}

pub proof fn lemma_pow10_mono(a: nat, b: nat)
    requires
        a <= b,
    ensures
        pow10(a) <= pow10(b),
        pow10(a) >= 1,
    decreases b,
{
    if a < b {
        lemma_pow10_mono(a, (b - 1) as nat);
    } else if b > 0 {
        lemma_pow10_mono((a - 1) as nat, (b - 1) as nat);
    }
}

/// Drops leading and trailing whitespace characters.
pub fn trim_chars(v: &Vec<char>) -> (r: Vec<char>)
    ensures
        r@ == trim_spec(v@),
{
    let n = v.len();
    proof {
        assert(v@.subrange(0, n as int) =~= v@);
    }
    let mut start: usize = 0;
    while start < n && is_space_exec(v[start])
        invariant
            0 <= start <= n,
            n == v@.len(),
            trim_front(v@) == trim_front(v@.subrange(start as int, n as int)),
        decreases n - start,
    {
        proof {
            let cur = v@.subrange(start as int, n as int);
            assert(cur.subrange(1, cur.len() as int) =~= v@.subrange(start + 1 as int, n as int));
        }
        start = start + 1;
    }
    proof {
        assert(trim_front(v@) == v@.subrange(start as int, n as int));
    }
    let mut end: usize = n;
    while end > start && is_space_exec(v[end - 1])
        invariant
            0 <= start <= end <= n,
            n == v@.len(),
            trim_front(v@) == v@.subrange(start as int, n as int),
            trim_back(v@.subrange(start as int, n as int)) == trim_back(
                v@.subrange(start as int, end as int),
            ),
        decreases end,
    {
        proof {
            let cur = v@.subrange(start as int, end as int);
            assert(cur[cur.len() - 1] == v@[end - 1]);
            assert(cur.subrange(0, cur.len() - 1) =~= v@.subrange(start as int, end - 1 as int));
        }
        end = end - 1;
    }
    proof {
        assert(trim_back(v@.subrange(start as int, end as int)) == v@.subrange(
            start as int,
            end as int,
        ));
    }
    sub_chars(v, start, end)
}

/// First index at or after `k` where `nd` occurs in `hay`.
pub open spec fn first_sub_from(hay: Seq<char>, nd: Seq<char>, k: int) -> Option<int>
    decreases hay.len() - k,
{
    if k < 0 || k + nd.len() > hay.len() {
        None
    } else if nd.len() == 0 {
        Some(k)
    } else if hay.subrange(k, k + nd.len()) == nd {
        Some(k)
    } else {
        first_sub_from(hay, nd, k + 1)
    }
}

/// First occurrence of `nd` inside `hay`, if any.
pub open spec fn find_sub_spec(hay: Seq<char>, nd: Seq<char>) -> Option<int> {
    first_sub_from(hay, nd, 0)
}

/// Finds the first occurrence of `nd` inside `hay`.
pub fn find_sub(hay: &Vec<char>, nd: &Vec<char>) -> (r: Option<usize>)
    ensures
        match r {
            Some(i) => find_sub_spec(hay@, nd@) == Some(i as int),
            None => find_sub_spec(hay@, nd@) is None,
        },
{
    let n = hay.len();
    let m = nd.len();
    if m > n {
        return None;
    }
    let mut k: usize = 0;
    while k <= n - m
        invariant
            0 <= k <= n - m + 1,
            m <= n,
            n == hay@.len(),
            m == nd@.len(),
            find_sub_spec(hay@, nd@) == first_sub_from(hay@, nd@, k as int),
        decreases n - m + 1 - k,
    {
        let mut j: usize = 0;
        let mut matched = true;
        while j < m
            invariant
                0 <= j <= m,
                m <= n,
                k <= n - m,
                n == hay@.len(),
                m == nd@.len(),
                matched == (forall|t: int| 0 <= t < j ==> hay@[k + t] == nd@[t]),
            decreases m - j,
        {
            if hay[k + j] != nd[j] {
                matched = false;
                proof {
                    assert(hay@[k + j] != nd@[j as int]);
                }
                j = m;
            } else {
                j = j + 1;
            }
        }
        if matched {
            proof {
                assert(hay@.subrange(k as int, k + m as int) =~= nd@);
            }
            return Some(k);
        }
        proof {
            let sub = hay@.subrange(k as int, k + m as int);
            assert(exists|t: int| 0 <= t < m && hay@[k + t] != nd@[t]);
            let t = choose|t: int| 0 <= t < m && hay@[k + t] != nd@[t];
            assert(sub[t] != nd@[t]);
            assert(sub != nd@);
        }
        k = k + 1;
    }
    None
}

/// All the `sep`-separated fields of `s`, in order; an empty input is one
/// empty field, as splitting leaves it.
pub open spec fn split_all(s: Seq<char>, sep: char) -> Seq<Seq<char>>
    decreases s.len(),
{
    let i = first_index_of(s, sep);
    if 0 <= i < s.len() {
        seq![s.subrange(0, i)] + split_all(s.subrange(i + 1, s.len() as int), sep)
    } else {
        seq![s]
    }
}

/// Splits `v` on every occurrence of `sep`.
pub fn split_chars(v: &Vec<char>, sep: char) -> (r: Vec<Vec<char>>)
    ensures
        r@.map_values(|p: Vec<char>| p@) == split_all(v@, sep),
{
    let mut out: Vec<Vec<char>> = Vec::new();
    let mut pos: usize = 0;
    proof {
        assert(v@.subrange(0, v@.len() as int) =~= v@);
    }
    loop
        invariant_except_break
            pos <= v@.len(),
            split_all(v@, sep) =~= out@.map_values(|p: Vec<char>| p@) + split_all(
                v@.subrange(pos as int, v@.len() as int),
                sep,
            ),
        ensures
            split_all(v@, sep) =~= out@.map_values(|p: Vec<char>| p@),
        decreases v@.len() - pos,
    {
        let ghost remain = v@.subrange(pos as int, v@.len() as int);
        proof {
            assert(remain.subrange(0, remain.len() as int) =~= remain);
        }
        let i = find_from(v, pos, sep);
        let seg = sub_chars(v, pos, i);
        proof {
            assert(seg@ =~= remain.subrange(0, i - pos));
        }
        out.push(seg);
        if i == v.len() {
            proof {
                assert(split_all(remain, sep) =~= seq![remain.subrange(0, i - pos)]);
                assert(out@.map_values(|p: Vec<char>| p@) =~= out@.map_values(
                    |p: Vec<char>| p@,
                ).drop_last().push(remain.subrange(0, i - pos)));
            }
            break ;
        }
        proof {
            assert(remain.subrange(i - pos + 1, remain.len() as int) =~= v@.subrange(
                i as int + 1,
                v@.len() as int,
            ));
            assert(out@.map_values(|p: Vec<char>| p@) =~= out@.map_values(
                |p: Vec<char>| p@,
            ).drop_last().push(remain.subrange(0, i - pos)));
        }
        pos = i + 1;
    }
    out
}

/// The decimal digits of a non-negative number, no padding.
pub open spec fn dec_chars(n: int) -> Seq<char>
    decreases n,
{
    if n <= 9 {
        seq![digit_char(n)]
    } else {
        dec_chars(n / 10).push(digit_char(n % 10))
    }
}

/// The decimal spelling of an integer, a minus sign ahead of a negative.
pub open spec fn dec_chars_signed(n: int) -> Seq<char> {
    if n < 0 {
        seq!['-'] + dec_chars(-n)
    } else {
        dec_chars(n)
    }
}

/// Appends the decimal digits of `v`.
pub fn push_u64_decimal(out: &mut String, v: u64)
    ensures
        final(out)@ == old(out)@ + dec_chars(v as int),
    decreases v,
{
    if v <= 9 {
        push_char(out, digit_char_exec(v));
    } else {
        push_u64_decimal(out, v / 10);
        push_char(out, digit_char_exec(v % 10));
    }
}

/// Appends the decimal spelling of `v`, sign included.
pub fn push_i64_decimal(out: &mut String, v: i64)
    requires
        v > i64::MIN,
    ensures
        final(out)@ == old(out)@ + dec_chars_signed(v as int),
{
    if v < 0 {
        push_char(out, '-');
        push_u64_decimal(out, (-v) as u64);
    } else {
        push_u64_decimal(out, v as u64);
    }
}

/// Whether `p` is a prefix of `s`.
pub open spec fn prefix_of(p: Seq<char>, s: Seq<char>) -> bool {
    p.len() <= s.len() && s.subrange(0, p.len() as int) == p
}

pub fn starts_with_chars(s: &Vec<char>, p: &Vec<char>) -> (r: bool)
    ensures
        r == prefix_of(p@, s@),
{
    let m = p.len();
    if m > s.len() {
        return false;
    }
    let mut j: usize = 0;
    while j < m
        invariant
            0 <= j <= m <= s@.len(),
            m == p@.len(),
            forall|t: int| 0 <= t < j ==> s@[t] == p@[t],
        decreases m - j,
    {
        if s[j] != p[j] {
            proof {
                assert(s@.subrange(0, m as int)[j as int] != p@[j as int]);
            }
            return false;
        }
        j = j + 1;
    }
    proof {
        assert(s@.subrange(0, m as int) =~= p@);
    }
    true
}

/// The character's code with an upper-case ASCII letter folded to lower.
pub open spec fn lower_code(c: char) -> int {
    if 65 <= c as u32 <= 90 {
        c as u32 + 32
    } else {
        c as u32 as int
    }
}

/// Whether two character runs agree up to ASCII case.
pub open spec fn eq_ignore_ascii(a: Seq<char>, b: Seq<char>) -> bool {
    a.len() == b.len() && forall|i: int| 0 <= i < a.len() ==> lower_code(a[i]) == lower_code(b[i])
}

pub fn eq_ignore_ascii_chars(a: &Vec<char>, b: &str) -> (r: bool)
    ensures
        r == eq_ignore_ascii(a@, b@),
{
    let n = b.unicode_len();
    if a.len() != n {
        return false;
    }
    let mut i: usize = 0;
    while i < n
        invariant
            0 <= i <= n,
            n == a@.len() == b@.len(),
            forall|t: int| 0 <= t < i ==> lower_code(a@[t]) == lower_code(b@[t]),
        decreases n - i,
    {
        let ca = a[i] as u32;
        let cb = b.get_char(i) as u32;
        let la = if 65 <= ca && ca <= 90 {
            ca + 32
        } else {
            ca
        };
        let lb = if 65 <= cb && cb <= 90 {
            cb + 32
        } else {
            cb
        };
        if la != lb {
            return false;
        }
        i = i + 1;
    }
    true
}

/// Relies on std's `String::push`: appends one character.
#[verifier::external_body]
pub fn push_char(s: &mut String, c: char)
    ensures
        final(s)@ == old(s)@.push(c),
{
    s.push(c)
}

pub fn digit_char_exec(d: u64) -> (c: char)
    requires
        d < 10,
    ensures
        c == digit_char(d as int),
{
    if d == 0 {
        '0'
    } else if d == 1 {
        '1'
    } else if d == 2 {
        '2'
    } else if d == 3 {
        '3'
    } else if d == 4 {
        '4'
    } else if d == 5 {
        '5'
    } else if d == 6 {
        '6'
    } else if d == 7 {
        '7'
    } else if d == 8 {
        '8'
    } else {
        '9'
    }
}

/// Appends `v` as exactly two decimal digits.
pub fn push_two_digits(out: &mut String, v: u64)
    requires
        v < 100,
    ensures
        final(out)@ == old(out)@ + dec_digits(v as int, 2),
{
    let ghost start = out@;
    push_char(out, digit_char_exec(v / 10));
    push_char(out, digit_char_exec(v % 10));
    proof {
        lemma_small_mod((v / 10) as nat, 10);
        let vi = v as int;
        assert(dec_digits(vi, 2) == dec_digits(vi / 10, 1).push(digit_char(vi % 10)));
        assert(dec_digits(vi / 10, 1) == dec_digits(vi / 10 / 10, 0).push(digit_char(vi / 10 % 10)));
        assert(out@ =~= start + dec_digits(v as int, 2));
    }
}

/// Appends `v` as exactly four decimal digits.
pub fn push_four_digits(out: &mut String, v: u64)
    requires
        v < 10000,
    ensures
        final(out)@ == old(out)@ + dec_digits(v as int, 4),
{
    let ghost start = out@;
    push_char(out, digit_char_exec(v / 1000));
    push_char(out, digit_char_exec((v / 100) % 10));
    push_char(out, digit_char_exec((v / 10) % 10));
    push_char(out, digit_char_exec(v % 10));
    proof {
        lemma_small_mod((v / 1000) as nat, 10);
        let vi = v as int;
        assert(vi / 10 / 10 == vi / 100) by {
            lemma_div_denominator(vi, 10, 10);
        };
        assert(vi / 100 / 10 == vi / 1000) by {
            lemma_div_denominator(vi, 100, 10);
        };
        assert(dec_digits(vi, 4) == dec_digits(vi / 10, 3).push(digit_char(vi % 10)));
        assert(dec_digits(vi / 10, 3) == dec_digits(vi / 10 / 10, 2).push(digit_char(vi / 10 % 10)));
        assert(dec_digits(vi / 100, 2) == dec_digits(vi / 100 / 10, 1).push(digit_char(vi / 100 % 10)));
        assert(dec_digits(vi / 1000, 1) == dec_digits(vi / 1000 / 10, 0).push(
            digit_char(vi / 1000 % 10),
        ));
        assert(out@ =~= start + dec_digits(v as int, 4));
    }
}

/// Builds a string from a character vector.
pub fn string_of_chars(v: &Vec<char>) -> (s: String)
    ensures
        s@ =~= v@,
{
    let mut s = String::new();
    let mut i: usize = 0;
    while i < v.len()
        invariant
            0 <= i <= v@.len(),
            s@ =~= v@.subrange(0, i as int),
        decreases v@.len() - i,
    {
        push_char(&mut s, v[i]);
        assert(s@ =~= v@.subrange(0, i + 1 as int));
        i = i + 1;
    }
    s
}

} // verus!
