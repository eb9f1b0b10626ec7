//! Character-level helpers shared by the key tables, the profile store and
//! the LCD renderer: whitespace trimming, ASCII case mapping, decimal
//! rendering and decimal parsing, all stated over `Seq<char>`.
use vstd::prelude::*;

verus! {

/// Appends one character to a string (std `String::push`).
/// Trusted: the string afterwards is the old one followed by `c`.
#[verifier::external_body]
pub(crate) fn push_char(s: &mut String, c: char)
    ensures
        final(s)@ == old(s)@.push(c),
{
    s.push(c)
}

/// The characters of a string slice, in order.
pub fn chars_of(s: &str) -> (v: Vec<char>)
    ensures
        v@ == s@,
{
    let mut v: Vec<char> = Vec::new();
    for c in it: s.chars()
        invariant
            v@ == it.seq().take(it.index() as int),
            it.seq() == s@,
    {
        v.push(c);
    }
    v
}

/// A string made of the given characters, in order.
pub fn string_of(v: &Vec<char>) -> (s: String)
    ensures
        s@ == v@,
{
    let mut s = String::new();
    let mut i: usize = 0;
    while i < v.len()
        invariant
            i <= v.len(),
            s@ == v@.take(i as int),
        decreases v.len() - i,
    {
        push_char(&mut s, v[i]);
        i = i + 1;
        assert(v@.take(i as int) == v@.take(i - 1 as int).push(v@[i - 1]));
    }
    assert(v@.take(v.len() as int) == v@);
    s
}

/// Appends all characters of `tail` to `v`.
pub fn extend_chars(v: &mut Vec<char>, tail: &Vec<char>)
    ensures
        final(v)@ == old(v)@ + tail@,
{
    let mut i: usize = 0;
    while i < tail.len()
        invariant
            i <= tail.len(),
            v@ == old(v)@ + tail@.take(i as int),
        decreases tail.len() - i,
    {
        v.push(tail[i]);
        i = i + 1;
        assert(tail@.take(i as int) == tail@.take(i - 1 as int).push(tail@[i - 1]));
    }
    assert(tail@.take(tail.len() as int) == tail@);
}

/// Whether two character vectors hold the same characters.
pub fn chars_eq(a: &Vec<char>, b: &Vec<char>) -> (r: bool)
    ensures
        r == (a@ == b@),
{
    if a.len() != b.len() {
        return false;
    }
    let mut i: usize = 0;
    while i < a.len()
        invariant
            a.len() == b.len(),
            i <= a.len(),
            forall|j: int| 0 <= j < i ==> a@[j] == b@[j],
        decreases a.len() - i,
    {
        if a[i] != b[i] {
            return false;
        }
        i = i + 1;
    }
    assert(a@ =~= b@);
    true
}

/// Unicode `White_Space`, the property that `char::is_whitespace` and
/// `str::trim` use.
pub open spec fn is_ws(c: char) -> bool {
    let n = c as u32;
    (0x09 <= n <= 0x0d) || n == 0x20 || n == 0x85 || n == 0xa0 || n == 0x1680 || (0x2000 <= n
        <= 0x200a) || n == 0x2028 || n == 0x2029 || n == 0x202f || n == 0x205f || n == 0x3000
}

pub fn is_whitespace(c: char) -> (r: bool)
    ensures
        r == is_ws(c),
{
    let n = c as u32;
    (0x09 <= n && n <= 0x0d) || n == 0x20 || n == 0x85 || n == 0xa0 || n == 0x1680 || (0x2000
        <= n && n <= 0x200a) || n == 0x2028 || n == 0x2029 || n == 0x202f || n == 0x205f || n
        == 0x3000
}

/// `s` without its leading whitespace.
pub open spec fn trim_start(s: Seq<char>) -> Seq<char>
    decreases s.len(),
{
    if s.len() > 0 && is_ws(s[0]) {
        trim_start(s.drop_first())
    } else {
        s
    }
}

/// `s` without its trailing whitespace.
pub open spec fn trim_end(s: Seq<char>) -> Seq<char>
    decreases s.len(),
{
    if s.len() > 0 && is_ws(s.last()) {
        trim_end(s.drop_last())
    } else {
        s
    }
}

/// `s` without leading and trailing whitespace, as `str::trim` gives it.
pub open spec fn trim(s: Seq<char>) -> Seq<char> {
    trim_end(trim_start(s))
}

proof fn lemma_trim_start_skip(s: Seq<char>, i: int)
    requires
        0 <= i < s.len(),
        is_ws(s[i]),
    ensures
        trim_start(s.skip(i)) == trim_start(s.skip(i + 1)),
{
    assert(s.skip(i).drop_first() =~= s.skip(i + 1));
}

proof fn lemma_trim_end_take(s: Seq<char>, j: int)
    requires
        0 < j <= s.len(),
        is_ws(s[j - 1]),
    ensures
        trim_end(s.take(j)) == trim_end(s.take(j - 1)),
{
    assert(s.take(j).drop_last() =~= s.take(j - 1));
}

/// Whitespace removed from both ends.
pub fn trim_chars(v: &Vec<char>) -> (r: Vec<char>)
    ensures
        r@ == trim(v@),
{
    let mut i: usize = 0;
    proof {
        assert(v@.skip(0) =~= v@);
    }
    while i < v.len() && is_whitespace(v[i])
        invariant
            i <= v.len(),
            trim_start(v@) == trim_start(v@.skip(i as int)),
        decreases v.len() - i,
    {
        proof {
            lemma_trim_start_skip(v@, i as int);
        }
        i = i + 1;
    }
    let ghost st = v@.skip(i as int);
    assert(trim_start(st) == st);
    let mut j: usize = v.len();
    proof {
        assert(st.take(st.len() as int) =~= st);
    }
    while j > i && is_whitespace(v[j - 1])
        invariant
            i <= j <= v.len(),
            st == v@.skip(i as int),
            trim_end(st) == trim_end(st.take(j - i)),
        decreases j,
    {
        proof {
            lemma_trim_end_take(st, (j - i) as int);
        }
        j = j - 1;
    }
    let ghost res = st.take(j - i);
    assert(trim_end(res) == res);
    let mut r: Vec<char> = Vec::new();
    let mut k: usize = i;
    while k < j
        invariant
            i <= k <= j <= v.len(),
            r@ == v@.subrange(i as int, k as int),
        decreases j - k,
    {
        r.push(v[k]);
        k = k + 1;
        assert(r@ =~= v@.subrange(i as int, k as int));
    }
    assert(r@ =~= res);
    r
}

/// ASCII upper-case mapping (`char::to_ascii_uppercase`).
pub open spec fn upper(c: char) -> char {
    if 'a' <= c <= 'z' {
        ((c as u32) - 32) as char
    } else {
        c
    }
}

/// ASCII lower-case mapping (`char::to_ascii_lowercase`).
pub open spec fn lower(c: char) -> char {
    if 'A' <= c <= 'Z' {
        ((c as u32) + 32) as char
    } else {
        c
    }
}

pub fn to_upper(c: char) -> (r: char)
    ensures
        r == upper(c),
{
    if 'a' <= c && c <= 'z' {
        ((c as u8) - 32) as char
    } else {
        c
    }
}

pub fn to_lower(c: char) -> (r: char)
    ensures
        r == lower(c),
{
    if 'A' <= c && c <= 'Z' {
        ((c as u8) + 32) as char
    } else {
        c
    }
}

pub open spec fn is_digit(c: char) -> bool {
    '0' <= c <= '9'
}

/// The character of a decimal digit.
pub open spec fn digit(d: int) -> char {
    (d + 48) as char
}

/// The decimal digits of `n`, with no leading zero.
pub open spec fn decimal(n: nat) -> Seq<char>
    decreases n,
{
    if n < 10 {
        seq![digit(n as int)]
    } else {
        decimal(n / 10).push(digit((n % 10) as int))
    }
}

/// Numbers below 100 read back from their decimal digits.
pub proof fn lemma_small_decimal(k: nat)
    requires
        1 <= k < 100,
    ensures
        parse_unsigned(decimal(k), 255) == Some(k),
        k < 10 ==> decimal(k) == seq![digit(k as int)],
{
    reveal_with_fuel(decimal, 2);
    reveal_with_fuel(digits_value, 3);
    let d = decimal(k);
    if k < 10 {
        assert(d == seq![digit(k as int)]);
        assert(d.drop_last() =~= Seq::<char>::empty());
    } else {
        assert(d == seq![digit((k / 10) as int), digit((k % 10) as int)]);
        assert(d.drop_last() =~= seq![digit((k / 10) as int)]);
        assert(d.drop_last().drop_last() =~= Seq::<char>::empty());
    }
    assert(unsigned_body(d) == d);
    assert(all_digits(d));
}

pub fn digit_char(d: u64) -> (c: char)
    requires
        d < 10,
    ensures
        c == digit(d as int),
{
    ((d as u8) + 48) as char
}

/// The decimal digits of `n`.
pub fn decimal_chars(n: u64) -> (v: Vec<char>)
    ensures
        v@ == decimal(n as nat),
    decreases n,
{
    if n < 10 {
        let mut v = Vec::new();
        v.push(digit_char(n));
        v
    } else {
        let mut v = decimal_chars(n / 10);
        v.push(digit_char(n % 10));
        v
    }
}

/// The value of a run of decimal digits.
pub open spec fn digits_value(s: Seq<char>) -> nat
    decreases s.len(),
{
    if s.len() == 0 {
        0
    } else {
        digits_value(s.drop_last()) * 10 + ((s.last() as u32) - 48) as nat
    }
}

pub open spec fn all_digits(s: Seq<char>) -> bool {
    forall|i: int| 0 <= i < s.len() ==> is_digit(#[trigger] s[i])
}

/// The digits of an unsigned literal: `s` without one leading `+`.
pub open spec fn unsigned_body(s: Seq<char>) -> Seq<char> {
    if s.len() > 0 && s[0] == '+' {
        s.drop_first()
    } else {
        s
    }
}

/// What `str::parse` gives for an unsigned integer type whose largest value
/// is `max`: an optional `+`, then one or more ASCII digits whose value is at
/// most `max`.
pub open spec fn parse_unsigned(s: Seq<char>, max: nat) -> Option<nat> {
    let body = unsigned_body(s);
    if body.len() > 0 && all_digits(body) && digits_value(body) <= max {
        Some(digits_value(body))
    } else {
        None
    }
}

pub proof fn lemma_digits_value_prefix(s: Seq<char>, k: int)
    requires
        0 <= k <= s.len(),
        all_digits(s),
    ensures
        digits_value(s.take(k)) <= digits_value(s),
    decreases s.len() - k,
{
    if k < s.len() {
        lemma_digits_value_prefix(s, k + 1);
        assert(s.take(k + 1).drop_last() =~= s.take(k));
        assert(is_digit(s[k]));
    }
    assert(s.take(s.len() as int) =~= s);
}

/// Decimal parsing with an upper bound, as `str::parse::<u16>` or
/// `str::parse::<u32>` does it.
pub fn parse_unsigned_chars(s: &Vec<char>, max: u64) -> (r: Option<u64>)
    requires
        max >= 9,
    ensures
        match parse_unsigned(s@, max as nat) {
            Some(n) => r == Some(n as u64),
            None => r is None,
        },
{
    let start: usize = if s.len() > 0 && s[0] == '+' {
        1
    } else {
        0
    };
    let ghost body = s@.skip(start as int);
    proof {
        if start == 1 {
            assert(body =~= s@.drop_first());
        } else {
            assert(body =~= s@);
        }
        assert(body == unsigned_body(s@));
    }
    if start >= s.len() {
        return None;
    }
    let mut value: u64 = 0;
    let mut i: usize = start;
    while i < s.len()
        invariant
            start <= i <= s.len(),
            body == s@.skip(start as int),
            body == unsigned_body(s@),
            value as nat == digits_value(body.take(i - start)),
            value <= max,
            max >= 9,
            forall|j: int| 0 <= j < i - start ==> is_digit(#[trigger] body[j]),
        decreases s.len() - i,
    {
        let c = s[i];
        if !('0' <= c && c <= '9') {
            proof {
                assert(!is_digit(body[i - start]));
                assert(!all_digits(body));
            }
            return None;
        }
        let d = (c as u32 - 48) as u64;
        proof {
            assert(body.take(i - start + 1).drop_last() =~= body.take(i - start));
            assert(body.take(i - start + 1).last() == c);
        }
        if value > (max - d) / 10 {
            proof {
                assert(value * 10 + d > max) by (nonlinear_arith)
                    requires
                        value > (max - d) / 10,
                        d <= 9,
                        d <= max,
                ;
                assert(forall|j: int| 0 <= j < i - start + 1 ==> is_digit(#[trigger] body[j]));
                if all_digits(body) {
                    lemma_digits_value_prefix(body, i - start + 1);
                }
            }
            return None;
        }
        proof {
            assert(value * 10 + d <= max) by (nonlinear_arith)
                requires
                    value <= (max - d) / 10,
                    d <= max,
            ;
        }
        value = value * 10 + d;
        i = i + 1;
    }
    proof {
        assert(body.take(i - start) =~= body);
        assert(all_digits(body));
    }
    Some(value)
}

/// Lexicographic order of character sequences, the order in which a
/// `BTreeMap<String, _>` keeps its keys.
pub open spec fn str_lt(a: Seq<char>, b: Seq<char>) -> bool
    decreases a.len(),
{
    if a.len() == 0 {
        b.len() > 0
    } else if b.len() == 0 {
        false
    } else if a[0] != b[0] {
        a[0] < b[0]
    } else {
        str_lt(a.drop_first(), b.drop_first())
    }
}

pub proof fn lemma_str_lt_irreflexive(a: Seq<char>)
    ensures
        !str_lt(a, a),
    decreases a.len(),
{
    if a.len() > 0 {
        lemma_str_lt_irreflexive(a.drop_first());
    }
}

pub proof fn lemma_str_lt_transitive(a: Seq<char>, b: Seq<char>, c: Seq<char>)
    requires
        str_lt(a, b),
        str_lt(b, c),
    ensures
        str_lt(a, c),
    decreases a.len(),
{
    if a.len() > 0 && b.len() > 0 && c.len() > 0 && a[0] == b[0] && b[0] == c[0] {
        lemma_str_lt_transitive(a.drop_first(), b.drop_first(), c.drop_first());
    }
}

pub proof fn lemma_str_lt_total(a: Seq<char>, b: Seq<char>)
    requires
        a != b,
    ensures
        str_lt(a, b) || str_lt(b, a),
    decreases a.len(),
{
    if a.len() > 0 && b.len() > 0 && a[0] == b[0] {
        if a.drop_first() == b.drop_first() {
            assert(a =~= seq![a[0]] + a.drop_first());
            assert(b =~= seq![b[0]] + b.drop_first());
            assert(a =~= b);
        }
        lemma_str_lt_total(a.drop_first(), b.drop_first());
    } else if a.len() == 0 && b.len() == 0 {
        assert(a =~= b);
    }
}

/// Whether `a` sorts strictly before `b`.
pub fn str_less(a: &Vec<char>, b: &Vec<char>) -> (r: bool)
    ensures
        r == str_lt(a@, b@),
{
    let mut i: usize = 0;
    proof {
        assert(a@.skip(0) =~= a@);
        assert(b@.skip(0) =~= b@);
    }
    while i < a.len() && i < b.len() && a[i] == b[i]
        invariant
            i <= a.len(),
            i <= b.len(),
            str_lt(a@, b@) == str_lt(a@.skip(i as int), b@.skip(i as int)),
        decreases a.len() - i,
    {
        proof {
            assert(a@.skip(i as int).drop_first() =~= a@.skip(i + 1));
            assert(b@.skip(i as int).drop_first() =~= b@.skip(i + 1));
        }
        i = i + 1;
    }
    if i == a.len() {
        i < b.len()
    } else if i == b.len() {
        false
    } else {
        a[i] < b[i]
    }
}

/// A string made of `prefix` followed by the characters of `tail`.
pub fn concat_chars(prefix: &str, tail: &Vec<char>) -> (r: String)
    ensures
        r@ == prefix@ + tail@,
{
    let mut v = chars_of(prefix);
    extend_chars(&mut v, tail);
    string_of(&v)
}

/// A string made of `a` followed by `b`.
pub fn concat_str(a: &str, b: &str) -> (r: String)
    ensures
        r@ == a@ + b@,
{
    let tail = chars_of(b);
    concat_chars(a, &tail)
}

/// Whether a string holds exactly the characters of `lit`.
pub fn str_eq(a: &str, lit: &str) -> (r: bool)
    ensures
        r == (a@ == lit@),
{
    chars_eq(&chars_of(a), &chars_of(lit))
}

/// The characters of each string of a sequence.
pub open spec fn views(v: Seq<String>) -> Seq<Seq<char>> {
    v.map_values(|s: String| s@)
}

/// Strictly ascending in lexicographic order.
pub open spec fn strictly_sorted(k: Seq<Seq<char>>) -> bool {
    forall|i: int, j: int| 0 <= i < j < k.len() ==> str_lt(#[trigger] k[i], #[trigger] k[j])
}

/// The strings of `v`, no two alike, in ascending order.
pub fn sort_distinct(v: &Vec<String>) -> (r: Vec<String>)
    requires
        views(v@).no_duplicates(),
    ensures
        strictly_sorted(views(r@)),
        views(r@).to_set() == views(v@).to_set(),
        r@.len() == v@.len(),
{
    let mut out: Vec<String> = Vec::new();
    let mut i: usize = 0;
    while i < v.len()
        invariant
            i <= v@.len(),
            views(v@).no_duplicates(),
            strictly_sorted(views(out@)),
            views(out@).to_set() == views(v@.take(i as int)).to_set(),
            out@.len() == i,
        decreases v@.len() - i,
    {
        let x = chars_of(v[i].as_str());
        let mut p: usize = 0;
        while p < out.len() && str_less(&chars_of(out[p].as_str()), &x)
            invariant
                p <= out@.len(),
                forall|q: int| 0 <= q < p ==> str_lt(#[trigger] views(out@)[q], x@),
            decreases out@.len() - p,
        {
            p = p + 1;
        }
        let ghost old_out = views(out@);
        proof {
            assert(!views(v@.take(i as int)).contains(x@)) by {
                if views(v@.take(i as int)).contains(x@) {
                    let k = choose|k: int| 0 <= k < i && views(v@.take(i as int))[k] == x@;
                    assert(views(v@)[k] == views(v@)[i as int]);
                }
            }
            assert(!old_out.contains(x@)) by {
                if old_out.contains(x@) {
                    let k = choose|k: int| 0 <= k < old_out.len() && old_out[k] == x@;
                    assert(views(out@).to_set().contains(x@));
                }
            }
            assert forall|q: int| p <= q < old_out.len() implies str_lt(x@, #[trigger] old_out[q]) by {
                if q == p {
                    assert(!str_lt(old_out[q], x@));
                    assert(old_out[q] != x@);
                    lemma_str_lt_total(old_out[q], x@);
                } else {
                    assert(!str_lt(old_out[p as int], x@));
                    assert(old_out[p as int] != x@);
                    lemma_str_lt_total(old_out[p as int], x@);
                    assert(str_lt(old_out[p as int], old_out[q]));
                    lemma_str_lt_transitive(x@, old_out[p as int], old_out[q]);
                }
            }
        }
        out.insert(p, v[i].clone());
        proof {
            let no = views(out@);
            assert(no =~= old_out.insert(p as int, x@));
            old_out.insert_ensures(p as int, x@);
            assert forall|a: int, b: int| 0 <= a < b < no.len() implies str_lt(
                #[trigger] no[a],
                #[trigger] no[b],
            ) by {
                if b < p {
                    assert(str_lt(old_out[a], old_out[b]));
                } else if b == p {
                    assert(no[a] == old_out[a]);
                } else if a == p {
                    assert(no[b] == old_out[b - 1]);
                } else if a < p {
                    assert(no[a] == old_out[a]);
                    assert(no[b] == old_out[b - 1]);
                    lemma_str_lt_transitive(old_out[a], x@, old_out[b - 1]);
                } else {
                    assert(no[a] == old_out[a - 1]);
                    assert(no[b] == old_out[b - 1]);
                    assert(str_lt(old_out[a - 1], old_out[b - 1]));
                }
            }
            assert(views(v@.take(i + 1)) =~= views(v@.take(i as int)).push(x@));
            assert forall|y: Seq<char>| #[trigger] no.contains(y) == views(v@.take(i + 1)).contains(
                y,
            ) by {
                if no.contains(y) {
                    let k = choose|k: int| 0 <= k < no.len() && no[k] == y;
                    if k == p {
                        assert(views(v@.take(i + 1))[i as int] == y);
                    } else {
                        if k < p {
                            assert(old_out[k] == y);
                        } else {
                            assert(old_out[k - 1] == y);
                        }
                        assert(old_out.to_set().contains(y));
                        assert(views(v@.take(i as int)).to_set().contains(y));
                        assert(views(v@.take(i as int)).contains(y));
                        let m = choose|m: int|
                            0 <= m < i && #[trigger] views(v@.take(i as int))[m] == y;
                        assert(views(v@.take(i + 1))[m] == y);
                    }
                }
                if views(v@.take(i + 1)).contains(y) {
                    if y == x@ {
                        assert(no[p as int] == y);
                    } else {
                        let k = choose|k: int|
                            0 <= k < i + 1 && #[trigger] views(v@.take(i + 1))[k] == y;
                        assert(views(v@.take(i as int))[k] == y);
                        assert(views(v@.take(i as int)).to_set().contains(y));
                        assert(old_out.to_set().contains(y));
                        let m = choose|m: int| 0 <= m < old_out.len() && old_out[m] == y;
                        if m < p {
                            assert(no[m] == y);
                        } else {
                            assert(no[m + 1] == y);
                        }
                    }
                }
            }
            assert(no.to_set() =~= views(v@.take(i + 1)).to_set());
        }
        i = i + 1;
    }
    assert(v@.take(v@.len() as int) =~= v@);
    out
}

/// Whether `s` begins with `p`.
pub open spec fn has_prefix(s: Seq<char>, p: Seq<char>) -> bool {
    p.len() <= s.len() && s.take(p.len() as int) == p
}

/// Whether the string `s` begins with the characters of `p`.
pub fn starts_with(s: &str, p: &str) -> (r: bool)
    ensures
        r == has_prefix(s@, p@),
{
    let a = chars_of(s);
    let b = chars_of(p);
    if b.len() > a.len() {
        return false;
    }
    let mut i: usize = 0;
    while i < b.len()
        invariant
            b@.len() <= a@.len(),
            i <= b@.len(),
            a@ == s@,
            b@ == p@,
            forall|k: int| 0 <= k < i ==> a@[k] == b@[k],
        decreases b@.len() - i,
    {
        if a[i] != b[i] {
            assert(a@.take(b@.len() as int)[i as int] != b@[i as int]);
            return false;
        }
        i = i + 1;
    }
    assert(a@.take(b@.len() as int) =~= b@);
    true
}

/// `s` with every ASCII capital letter made small (`str::to_ascii_lowercase`).
pub open spec fn lower_all(s: Seq<char>) -> Seq<char> {
    s.map_values(|c: char| lower(c))
}

/// The characters of `v` with ASCII capitals made small.
pub fn lower_chars(v: &Vec<char>) -> (r: Vec<char>)
    ensures
        r@ == lower_all(v@),
{
    let mut r: Vec<char> = Vec::new();
    let mut i: usize = 0;
    while i < v.len()
        invariant
            i <= v@.len(),
            r@ == lower_all(v@.take(i as int)),
        decreases v@.len() - i,
    {
        r.push(to_lower(v[i]));
        i = i + 1;
        assert(r@ =~= lower_all(v@.take(i as int)));
    }
    assert(v@.take(v@.len() as int) =~= v@);
    r
}

/// Whether `v` holds a string with the characters of `x`.
pub fn contains_chars(v: &Vec<String>, x: &Vec<char>) -> (r: bool)
    ensures
        r == views(v@).contains(x@),
{
    let mut i: usize = 0;
    while i < v.len()
        invariant
            i <= v@.len(),
            forall|k: int| 0 <= k < i ==> views(v@)[k] != x@,
        decreases v@.len() - i,
    {
        if chars_eq(&chars_of(v[i].as_str()), x) {
            assert(views(v@)[i as int] == x@);
            return true;
        }
        i = i + 1;
    }
    false
}

/// The strings of `v` with later repetitions left out.
pub fn dedup_strings(v: &Vec<String>) -> (r: Vec<String>)
    ensures
        views(r@).no_duplicates(),
        views(r@).to_set() == views(v@).to_set(),
{
    let mut out: Vec<String> = Vec::new();
    let mut i: usize = 0;
    while i < v.len()
        invariant
            i <= v@.len(),
            views(out@).no_duplicates(),
            views(out@).to_set() == views(v@.take(i as int)).to_set(),
        decreases v@.len() - i,
    {
        let x = chars_of(v[i].as_str());
        let ghost before = views(out@);
        assert(views(v@.take(i + 1)) =~= views(v@.take(i as int)).push(x@));
        if !contains_chars(&out, &x) {
            out.push(v[i].clone());
            assert(views(out@) =~= before.push(x@));
            assert forall|y: Seq<char>| #[trigger] views(out@).to_set().contains(y) == views(
                v@.take(i + 1),
            ).to_set().contains(y) by {
                vstd::seq_lib::lemma_seq_contains_after_push(before, x@, y);
                vstd::seq_lib::lemma_seq_contains_after_push(views(v@.take(i as int)), x@, y);
                assert(before.to_set().contains(y) == views(v@.take(i as int)).to_set().contains(
                    y,
                ));
            }
            assert(views(out@).to_set() =~= views(v@.take(i + 1)).to_set());
        } else {
            assert forall|y: Seq<char>| #[trigger] views(out@).to_set().contains(y) == views(
                v@.take(i + 1),
            ).to_set().contains(y) by {
                vstd::seq_lib::lemma_seq_contains_after_push(views(v@.take(i as int)), x@, y);
                assert(before.to_set().contains(y) == views(v@.take(i as int)).to_set().contains(
                    y,
                ));
            }
            assert(views(out@).to_set() =~= views(v@.take(i + 1)).to_set());
        }
        i = i + 1;
    }
    assert(v@.take(v@.len() as int) =~= v@);
    out
}

/// The strings of `v`, each once, in ascending order (a sort followed by a
/// dedup).
pub fn sorted_set(v: &Vec<String>) -> (r: Vec<String>)
    ensures
        strictly_sorted(views(r@)),
        views(r@).to_set() == views(v@).to_set(),
{
    let d = dedup_strings(v);
    sort_distinct(&d)
}

/// Ascending by the ASCII lower-case form of each string, equal forms
/// allowed side by side.
pub open spec fn sorted_by_lower(k: Seq<Seq<char>>) -> bool {
    forall|i: int, j: int|
        0 <= i < j < k.len() ==> !str_lt(lower_all(#[trigger] k[j]), lower_all(#[trigger] k[i]))
}

/// `x` put into `s` after every string whose lower-case form does not sort
/// after its own: the step of a stable insertion sort.
pub open spec fn insert_by_lower(s: Seq<Seq<char>>, x: Seq<char>) -> Seq<Seq<char>>
    decreases s.len(),
{
    if s.len() == 0 {
        seq![x]
    } else if str_lt(lower_all(x), lower_all(s[0])) {
        seq![x] + s
    } else {
        seq![s[0]] + insert_by_lower(s.drop_first(), x)
    }
}

/// The stable sort of `v` by lower-case form: each string in turn put after
/// the earlier strings of the same or a smaller form.
pub open spec fn stable_sort_by_lower(v: Seq<Seq<char>>) -> Seq<Seq<char>>
    decreases v.len(),
{
    if v.len() == 0 {
        Seq::empty()
    } else {
        insert_by_lower(stable_sort_by_lower(v.drop_last()), v.last())
    }
}

proof fn lemma_insert_by_lower_at(s: Seq<Seq<char>>, x: Seq<char>, p: int)
    requires
        0 <= p <= s.len(),
        forall|q: int| 0 <= q < p ==> !str_lt(lower_all(x), lower_all(#[trigger] s[q])),
        p < s.len() ==> str_lt(lower_all(x), lower_all(s[p])),
    ensures
        insert_by_lower(s, x) == s.insert(p, x),
    decreases s.len(),
{
    if s.len() == 0 {
        assert(s.insert(p, x) =~= seq![x]);
    } else if p == 0 {
        assert(s.insert(0, x) =~= seq![x] + s);
    } else {
        let t = s.drop_first();
        assert forall|q: int| 0 <= q < p - 1 implies !str_lt(lower_all(x), lower_all(#[trigger] t[q])) by {
            assert(t[q] == s[q + 1]);
        }
        if p - 1 < t.len() {
            assert(t[p - 1] == s[p]);
        }
        lemma_insert_by_lower_at(t, x, p - 1);
        assert(!str_lt(lower_all(x), lower_all(s[0])));
        assert(s.insert(p, x) =~= seq![s[0]] + t.insert(p - 1, x));
    }
}

/// The strings of `v` ordered by their ASCII lower-case form; strings with
/// the same form keep their order (`sort_by_key` with
/// `to_ascii_lowercase`).
pub fn sort_by_lower(v: &Vec<String>) -> (r: Vec<String>)
    ensures
        views(r@) == stable_sort_by_lower(views(v@)),
        sorted_by_lower(views(r@)),
        views(r@).to_multiset() == views(v@).to_multiset(),
        r@.len() == v@.len(),
{
    let mut out: Vec<String> = Vec::new();
    let mut i: usize = 0;
    assert(views(v@.take(0)) =~= views(out@));
    while i < v.len()
        invariant
            i <= v@.len(),
            views(out@) == stable_sort_by_lower(views(v@.take(i as int))),
            sorted_by_lower(views(out@)),
            views(out@).to_multiset() == views(v@.take(i as int)).to_multiset(),
            out@.len() == i,
        decreases v@.len() - i,
    {
        let x = chars_of(v[i].as_str());
        let kx = lower_chars(&x);
        let mut p: usize = 0;
        while p < out.len() && !str_less(&kx, &lower_chars(&chars_of(out[p].as_str())))
            invariant
                p <= out@.len(),
                kx@ == lower_all(x@),
                forall|q: int| 0 <= q < p ==> !str_lt(kx@, lower_all(#[trigger] views(out@)[q])),
            decreases out@.len() - p,
        {
            p = p + 1;
        }
        let ghost old_out = views(out@);
        out.insert(p, v[i].clone());
        proof {
            let no = views(out@);
            assert(no =~= old_out.insert(p as int, x@));
            vstd::seq_lib::to_multiset_insert(old_out, p as int, x@);
            assert(views(v@.take(i + 1)) =~= views(v@.take(i as int)).push(x@));
            vstd::seq_lib::to_multiset_build(views(v@.take(i as int)), x@);
            lemma_insert_by_lower_at(old_out, x@, p as int);
            assert(views(v@.take(i + 1)).drop_last() =~= views(v@.take(i as int)));
            assert(views(v@.take(i + 1)).last() == x@);
            assert forall|a: int, b: int| 0 <= a < b < no.len() implies !str_lt(
                lower_all(#[trigger] no[b]),
                lower_all(#[trigger] no[a]),
            ) by {
                if b < p {
                    assert(no[a] == old_out[a] && no[b] == old_out[b]);
                } else if b == p {
                    assert(no[a] == old_out[a]);
                } else if a == p {
                    assert(no[b] == old_out[b - 1]);
                    assert(str_lt(kx@, lower_all(old_out[p as int])));
                    if str_lt(lower_all(old_out[b - 1]), kx@) {
                        lemma_str_lt_transitive(
                            lower_all(old_out[b - 1]),
                            kx@,
                            lower_all(old_out[p as int]),
                        );
                        if b - 1 == p {
                            lemma_str_lt_irreflexive(lower_all(old_out[p as int]));
                        }
                    }
                } else if a < p {
                    assert(no[a] == old_out[a] && no[b] == old_out[b - 1]);
                } else {
                    assert(no[a] == old_out[a - 1] && no[b] == old_out[b - 1]);
                }
            }
        }
        i = i + 1;
    }
    assert(v@.take(v@.len() as int) =~= v@);
    out
}

} // verus!
