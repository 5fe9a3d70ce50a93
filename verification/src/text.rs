use vstd::prelude::*;

verus! {

/// The decimal digit that stands for `d` (for `d < 10`).
pub open spec fn digit_char(d: nat) -> char {
    if d == 0 {
        '0'
    } else if d == 1 {
        '1'
    } else if d == 2 {
        '2'
    } else if d == 3 {
        '3'
    } else if d == 4 {
        '4'
    } else if d == 5 {
        '5'
    } else if d == 6 {
        '6'
    } else if d == 7 {
        '7'
    } else if d == 8 {
        '8'
    } else {
        '9'
    }
}

/// The decimal notation of a natural number, without leading zeros.
pub open spec fn decimal(n: nat) -> Seq<char>
    decreases n,
{
    if n < 10 {
        seq![digit_char(n)]
    } else {
        decimal(n / 10) + seq![digit_char(n % 10)]
    }
}

/// The decimal notation of an integer, with a leading `-` when negative.
pub open spec fn signed_decimal(n: int) -> Seq<char> {
    if n < 0 {
        seq!['-'] + decimal((-n) as nat)
    } else {
        decimal(n as nat)
    }
}

fn digit_str(d: u64) -> (r: &'static str)
    requires
        d < 10,
    ensures
        r@ == seq![digit_char(d as nat)],
{
    proof {
        reveal_strlit("0");
        reveal_strlit("1");
        reveal_strlit("2");
        reveal_strlit("3");
        reveal_strlit("4");
        reveal_strlit("5");
        reveal_strlit("6");
        reveal_strlit("7");
        reveal_strlit("8");
        reveal_strlit("9");
    }
    if d == 0 {
        "0"
    } else if d == 1 {
        "1"
    } else if d == 2 {
        "2"
    } else if d == 3 {
        "3"
    } else if d == 4 {
        "4"
    } else if d == 5 {
        "5"
    } else if d == 6 {
        "6"
    } else if d == 7 {
        "7"
    } else if d == 8 {
        "8"
    } else {
        "9"
    }
}

/// Appends the decimal notation of `n` to `out`.
pub fn push_decimal(out: &mut String, n: u64)
    ensures
        final(out)@ == old(out)@ + decimal(n as nat),
    decreases n,
{
    if n < 10 {
        out.append(digit_str(n));
    } else {
        push_decimal(out, n / 10);
        out.append(digit_str(n % 10));
        proof {
            assert(old(out)@ + decimal(n as nat) == old(out)@ + decimal((n / 10) as nat) + seq![
                digit_char((n % 10) as nat),
            ]);
        }
    }
}

/// The decimal notation of an unsigned number.
pub fn decimal_string(n: u64) -> (r: String)
    ensures
        r@ == decimal(n as nat),
{
    let mut s = String::new();
    push_decimal(&mut s, n);
    assert(s@ == Seq::<char>::empty() + decimal(n as nat));
    s
}

/// Appends the decimal notation of a signed number to `out`.
pub fn push_signed_decimal(out: &mut String, n: i64)
    ensures
        final(out)@ == old(out)@ + signed_decimal(n as int),
{
    if n < 0 {
        proof {
            reveal_strlit("-");
        }
        out.append("-");
        let m: u64 = ((-(n + 1)) as u64) + 1;
        push_decimal(out, m);
        assert(old(out)@ + signed_decimal(n as int) == old(out)@ + seq!['-'] + decimal(m as nat));
    } else {
        push_decimal(out, n as u64);
    }
}

/// The characters of a string slice.
pub fn chars_of(s: &str) -> (r: Vec<char>)
    ensures
        r@ == s@,
{
    let mut v: Vec<char> = Vec::new();
    for c in it: s.chars()
        invariant
            v@ == it.seq().take(it.index() as int),
            it.seq() == s@,
    {
        v.push(c);
    }
    v
}

/// The pieces of `s` between the occurrences of `c`, as `str::split` gives
/// them: one more piece than there are occurrences.
pub open spec fn split_on(s: Seq<char>, c: char) -> Seq<Seq<char>>
    decreases s.len(),
{
    if s.len() == 0 {
        seq![seq![]]
    } else {
        let r = split_on(s.drop_last(), c);
        if s.last() == c {
            r.push(seq![])
        } else {
            r.update(r.len() - 1, r.last().push(s.last()))
        }
    }
}

pub proof fn lemma_split_on_nonempty(s: Seq<char>, c: char)
    ensures
        split_on(s, c).len() >= 1,
    decreases s.len(),
{
    if s.len() > 0 {
        lemma_split_on_nonempty(s.drop_last(), c);
    }
}

/// Splitting around one separator splits each side on its own.
pub proof fn lemma_split_on_concat(a: Seq<char>, b: Seq<char>, c: char)
    ensures
        split_on(a + seq![c] + b, c) == split_on(a, c) + split_on(b, c),
    decreases b.len(),
{
    let s = a + seq![c] + b;
    if b.len() == 0 {
        assert(s.drop_last() =~= a);
        assert(split_on(a, c).push(seq![]) =~= split_on(a, c) + split_on(b, c));
    } else {
        let b1 = b.drop_last();
        assert(s.drop_last() =~= a + seq![c] + b1);
        lemma_split_on_concat(a, b1, c);
        lemma_split_on_nonempty(b1, c);
        let r = split_on(a, c) + split_on(b1, c);
        if b.last() == c {
            assert(r.push(seq![]) =~= split_on(a, c) + split_on(b1, c).push(seq![]));
        } else {
            let q = split_on(b1, c);
            assert(r.update(r.len() - 1, r.last().push(b.last())) =~= split_on(a, c) + q.update(
                q.len() - 1,
                q.last().push(b.last()),
            ));
        }
    }
}

/// A piece without the separator, then the separator, then the rest: the
/// piece comes first among the pieces.
pub proof fn lemma_split_on_cons(a: Seq<char>, b: Seq<char>, c: char)
    requires
        !a.contains(c),
    ensures
        split_on(a + seq![c] + b, c) == seq![a] + split_on(b, c),
{
    lemma_split_on_concat(a, b, c);
    lemma_split_on_single(a, c);
}

/// A sequence without the separator is one piece.
pub proof fn lemma_split_on_single(a: Seq<char>, c: char)
    requires
        !a.contains(c),
    ensures
        split_on(a, c) == seq![a],
    decreases a.len(),
{
    if a.len() > 0 {
        let a1 = a.drop_last();
        assert(!a1.contains(c)) by {
            if a1.contains(c) {
                let k = choose|k: int| 0 <= k < a1.len() && a1[k] == c;
                assert(a[k] == c);
            }
        }
        lemma_split_on_single(a1, c);
        assert(a.last() != c) by {
            assert(a[a.len() - 1] == a.last());
        }
        assert(a1.push(a.last()) =~= a);
        assert(seq![a1].update(0, seq![a1].last().push(a.last())) =~= seq![a]);
    } else {
        assert(a =~= Seq::<char>::empty());
    }
}

/// Splits `s` at every `c`.
pub fn split_chars(s: &Vec<char>, c: char) -> (r: Vec<Vec<char>>)
    ensures
        r@.len() == split_on(s@, c).len(),
        forall|i: int| 0 <= i < r@.len() ==> (#[trigger] r@[i])@ == split_on(s@, c)[i],
{
    let mut out: Vec<Vec<char>> = Vec::new();
    let mut cur: Vec<char> = Vec::new();
    let mut i: usize = 0;
    while i < s.len()
        invariant
            i <= s@.len(),
            out@.len() + 1 == split_on(s@.take(i as int), c).len(),
            forall|j: int| 0 <= j < out@.len() ==> (#[trigger] out@[j])@ == split_on(s@.take(i as int), c)[j],
            cur@ == split_on(s@.take(i as int), c).last(),
        decreases s@.len() - i,
    {
        proof {
            lemma_split_on_nonempty(s@.take(i as int), c);
            assert(s@.take(i + 1).drop_last() =~= s@.take(i as int));
            assert(s@.take(i + 1).last() == s@[i as int]);
        }
        if s[i] == c {
            out.push(cur);
            cur = Vec::new();
        } else {
            cur.push(s[i]);
        }
        i = i + 1;
    }
    out.push(cur);
    assert(s@.take(s@.len() as int) =~= s@);
    out
}

/// Whether `s` starts with `p`.
pub open spec fn starts_with(s: Seq<char>, p: Seq<char>) -> bool {
    p.len() <= s.len() && s.take(p.len() as int) == p
}

/// Whether `s` ends with `p`.
pub open spec fn ends_with(s: Seq<char>, p: Seq<char>) -> bool {
    p.len() <= s.len() && s.skip(s.len() - p.len()) == p
}

/// Whether two character sequences are equal.
pub fn chars_eq(a: &Vec<char>, b: &Vec<char>) -> (r: bool)
    ensures
        r == (a@ == b@),
{
    if a.len() != b.len() {
        return false;
    }
    let mut i: usize = 0;
    while i < a.len()
        invariant
            i <= a@.len() == b@.len(),
            forall|j: int| 0 <= j < i ==> a@[j] == b@[j],
        decreases a@.len() - i,
    {
        if a[i] != b[i] {
            return false;
        }
        i = i + 1;
    }
    assert(a@ =~= b@);
    true
}

/// Whether two strings are equal.
pub fn str_eq(a: &str, b: &str) -> (r: bool)
    ensures
        r == (a@ == b@),
{
    chars_eq(&chars_of(a), &chars_of(b))
}

/// Whether `s` starts with `p`.
pub fn chars_start_with(s: &Vec<char>, p: &Vec<char>) -> (r: bool)
    ensures
        r == starts_with(s@, p@),
{
    if p.len() > s.len() {
        return false;
    }
    let mut i: usize = 0;
    while i < p.len()
        invariant
            i <= p@.len() <= s@.len(),
            forall|j: int| 0 <= j < i ==> s@[j] == p@[j],
        decreases p@.len() - i,
    {
        if s[i] != p[i] {
            assert(s@.take(p@.len() as int)[i as int] != p@[i as int]);
            return false;
        }
        i = i + 1;
    }
    assert(s@.take(p@.len() as int) =~= p@);
    true
}

/// Whether `s` ends with `p`.
pub fn chars_end_with(s: &Vec<char>, p: &Vec<char>) -> (r: bool)
    ensures
        r == ends_with(s@, p@),
{
    if p.len() > s.len() {
        return false;
    }
    let n = s.len();
    let off = n - p.len();
    let mut i: usize = 0;
    while i < p.len()
        invariant
            i <= p@.len() <= s@.len(),
            n == s@.len(),
            off == s@.len() - p@.len(),
            forall|j: int| 0 <= j < i ==> s@[off + j] == p@[j],
        decreases p@.len() - i,
    {
        if s[off + i] != p[i] {
            assert(s@.skip(off as int)[i as int] != p@[i as int]);
            return false;
        }
        i = i + 1;
    }
    assert(s@.skip(off as int) =~= p@);
    true
}

/// `s` with every `from` replaced by `to`.
pub open spec fn replace_char(s: Seq<char>, from: char, to: char) -> Seq<char> {
    s.map_values(|x: char| if x == from { to } else { x })
}

/// Replaces every `from` in `s` by `to`.
pub fn chars_replace(s: &Vec<char>, from: char, to: char) -> (r: Vec<char>)
    ensures
        r@ == replace_char(s@, from, to),
{
    let mut out: Vec<char> = Vec::new();
    let mut i: usize = 0;
    while i < s.len()
        invariant
            i <= s@.len(),
            out@ == replace_char(s@.take(i as int), from, to),
        decreases s@.len() - i,
    {
        if s[i] == from {
            out.push(to);
        } else {
            out.push(s[i]);
        }
        assert(replace_char(s@.take(i + 1), from, to) =~= replace_char(s@.take(i as int), from, to).push(
            if s@[i as int] == from { to } else { s@[i as int] },
        ));
        i = i + 1;
    }
    assert(s@.take(s@.len() as int) =~= s@);
    out
}

/// Whether a character has the Unicode `White_Space` property, which std's
/// `char::is_whitespace` tests: U+0009 to U+000D, U+0020, U+0085, U+00A0,
/// U+1680, U+2000 to U+200A, U+2028, U+2029, U+202F, U+205F and U+3000.
pub open spec fn is_white_space(c: char) -> bool {
    let u = c as u32;
    ||| 0x9 <= u <= 0xd
    ||| u == 0x20
    ||| u == 0x85
    ||| u == 0xa0
    ||| u == 0x1680
    ||| 0x2000 <= u <= 0x200a
    ||| u == 0x2028
    ||| u == 0x2029
    ||| u == 0x202f
    ||| u == 0x205f
    ||| u == 0x3000
}

/// Whether a character has the Unicode `White_Space` property, as std's
/// `char::is_whitespace` tests it.
fn char_is_whitespace(c: char) -> (r: bool)
    ensures
        r == is_white_space(c),
{
    let u = c as u32;
    (0x9 <= u && u <= 0xd) || u == 0x20 || u == 0x85 || u == 0xa0 || u == 0x1680 || (0x2000 <= u
        && u <= 0x200a) || u == 0x2028 || u == 0x2029 || u == 0x202f || u == 0x205f || u == 0x3000
}

/// The number of white space characters at the start of `s`.
pub open spec fn leading_ws(s: Seq<char>) -> nat
    decreases s.len(),
{
    if s.len() > 0 && is_white_space(s[0]) {
        1 + leading_ws(s.drop_first())
    } else {
        0
    }
}

/// The number of white space characters at the end of `s`.
pub open spec fn trailing_ws(s: Seq<char>) -> nat
    decreases s.len(),
{
    if s.len() > 0 && is_white_space(s.last()) {
        1 + trailing_ws(s.drop_last())
    } else {
        0
    }
}

/// `s` without white space at either end, as `str::trim` gives it.
pub open spec fn trim(s: Seq<char>) -> Seq<char> {
    let a = leading_ws(s);
    if a == s.len() {
        seq![]
    } else {
        let t = s.skip(a as int);
        t.take(t.len() - trailing_ws(t))
    }
}

/// A sequence that starts and ends with other characters than white space
/// is its own trim.
pub proof fn lemma_trim_noop(s: Seq<char>)
    requires
        s.len() > 0,
        !is_white_space(s[0]),
        !is_white_space(s.last()),
    ensures
        trim(s) == s,
{
    assert(leading_ws(s) == 0);
    assert(s.skip(0) =~= s);
    assert(trailing_ws(s) == 0);
    assert(s.take(s.len() as int) =~= s);
}

pub proof fn lemma_leading_ws_bound(s: Seq<char>)
    ensures
        leading_ws(s) <= s.len(),
        leading_ws(s) < s.len() ==> !is_white_space(s[leading_ws(s) as int]),
        forall|i: int| 0 <= i < leading_ws(s) ==> is_white_space(#[trigger] s[i]),
    decreases s.len(),
{
    if s.len() > 0 && is_white_space(s[0]) {
        lemma_leading_ws_bound(s.drop_first());
        assert forall|i: int| 0 <= i < leading_ws(s) implies is_white_space(#[trigger] s[i]) by {
            if i > 0 {
                assert(s[i] == s.drop_first()[i - 1]);
            }
        }
    }
}

pub proof fn lemma_trailing_ws_bound(s: Seq<char>)
    ensures
        trailing_ws(s) <= s.len(),
        trailing_ws(s) < s.len() ==> !is_white_space(s[s.len() - 1 - trailing_ws(s)]),
        forall|i: int| s.len() - trailing_ws(s) <= i < s.len() ==> is_white_space(#[trigger] s[i]),
    decreases s.len(),
{
    if s.len() > 0 && is_white_space(s.last()) {
        lemma_trailing_ws_bound(s.drop_last());
        assert forall|i: int| s.len() - trailing_ws(s) <= i < s.len() implies is_white_space(
            #[trigger] s[i],
        ) by {
            if i < s.len() - 1 {
                assert(s[i] == s.drop_last()[i]);
            }
        }
    }
}

pub proof fn lemma_leading_ws_index(s: Seq<char>, k: nat)
    requires
        k <= s.len(),
        forall|i: int| 0 <= i < k ==> is_white_space(#[trigger] s[i]),
        k < s.len() ==> !is_white_space(s[k as int]),
    ensures
        leading_ws(s) == k,
    decreases s.len(),
{
    if k > 0 {
        assert(is_white_space(s[0]));
        assert forall|i: int| 0 <= i < k - 1 implies is_white_space(#[trigger] s.drop_first()[i]) by {
            assert(s.drop_first()[i] == s[i + 1]);
        }
        if k - 1 < s.len() - 1 {
            assert(s.drop_first()[k - 1] == s[k as int]);
        }
        lemma_leading_ws_index(s.drop_first(), (k - 1) as nat);
    }
}

pub proof fn lemma_trailing_ws_index(s: Seq<char>, k: nat)
    requires
        k <= s.len(),
        forall|i: int| s.len() - k <= i < s.len() ==> is_white_space(#[trigger] s[i]),
        k < s.len() ==> !is_white_space(s[s.len() - 1 - k]),
    ensures
        trailing_ws(s) == k,
    decreases s.len(),
{
    if k > 0 {
        assert(is_white_space(s.last()));
        let t = s.drop_last();
        assert forall|i: int| t.len() - (k - 1) <= i < t.len() implies is_white_space(#[trigger] t[i]) by {
            assert(t[i] == s[i]);
        }
        if k - 1 < t.len() {
            assert(t[t.len() - 1 - (k - 1)] == s[s.len() - 1 - k]);
        }
        lemma_trailing_ws_index(t, (k - 1) as nat);
    }
}

/// Removes white space at both ends of `s`.
pub fn trim_chars(s: &Vec<char>) -> (r: Vec<char>)
    ensures
        r@ == trim(s@),
{
    let n = s.len();
    let mut a: usize = 0;
    while a < n && char_is_whitespace(s[a])
        invariant
            a <= n == s@.len(),
            forall|i: int| 0 <= i < a ==> is_white_space(#[trigger] s@[i]),
        decreases n - a,
    {
        a = a + 1;
    }
    proof {
        lemma_leading_ws_index(s@, a as nat);
    }
    if a == n {
        return Vec::new();
    }
    let mut e: usize = n;
    while e > a && char_is_whitespace(s[e - 1])
        invariant
            a < n == s@.len(),
            a <= e <= n,
            forall|i: int| e <= i < n ==> is_white_space(#[trigger] s@[i]),
        decreases e,
    {
        e = e - 1;
    }
    proof {
        let t = s@.skip(a as int);
        assert(e > a) by {
            assert(!is_white_space(s@[a as int]));
        }
        assert forall|i: int| t.len() - (n - e) <= i < t.len() implies is_white_space(#[trigger] t[i]) by {
            assert(t[i] == s@[a + i]);
        }
        if (n - e) < t.len() {
            assert(t[t.len() - 1 - (n - e)] == s@[e - 1]);
        }
        lemma_trailing_ws_index(t, (n - e) as nat);
    }
    let mut out: Vec<char> = Vec::new();
    let mut i: usize = a;
    while i < e
        invariant
            a <= i <= e <= n == s@.len(),
            out@ == s@.subrange(a as int, i as int),
        decreases e - i,
    {
        out.push(s[i]);
        assert(s@.subrange(a as int, i + 1) =~= s@.subrange(a as int, i as int).push(s@[i as int]));
        i = i + 1;
    }
    assert(out@ =~= trim(s@));
    out
}

/// The text that std's `str::to_lowercase` gives for `s`.
pub uninterp spec fn lowercase(s: Seq<char>) -> Seq<char>;

/// Whether every character is ASCII.
pub open spec fn all_ascii(s: Seq<char>) -> bool {
    forall|i: int| 0 <= i < s.len() ==> (#[trigger] s[i] as u32) < 128
}

/// An ASCII capital letter as a small one; any other character as it is.
pub open spec fn ascii_lower_char(c: char) -> char {
    if 'A' <= c <= 'Z' {
        ((c as u32) + 32) as char
    } else {
        c
    }
}

/// A text with its ASCII capital letters made small.
pub open spec fn ascii_lowercase(s: Seq<char>) -> Seq<char> {
    s.map_values(|c: char| ascii_lower_char(c))
}

/// std's `str::to_lowercase`. Its result is named; of an ASCII text it is
/// the text with `A` to `Z` made `a` to `z` and every other character kept,
/// as the lowercase mapping of Unicode has it for ASCII.
#[verifier::external_body]
pub fn lowercase_str(s: &str) -> (r: String)
    ensures
        r@ == lowercase(s@),
        !all_ascii(s@) || r@ == ascii_lowercase(s@),
{
    s.to_lowercase()
}

/// `str::to_lowercase` on characters.
pub fn lowercase_chars(s: &Vec<char>) -> (r: Vec<char>)
    ensures
        r@ == lowercase(s@),
        !all_ascii(s@) || r@ == ascii_lowercase(s@),
{
    let t = string_of_chars(s);
    let l = lowercase_str(t.as_str());
    chars_of(l.as_str())
}

/// The string made of the given characters, as std's `FromIterator<char>`
/// for `String` collects them.
#[verifier::external_body]
pub fn string_of_chars(s: &Vec<char>) -> (r: String)
    ensures
        r@ == s@,
{
    s.iter().collect()
}

/// The number that ASCII digits hold, most significant first.
pub open spec fn digits_value(s: Seq<char>) -> int
    decreases s.len(),
{
    if s.len() == 0 {
        0
    } else {
        digits_value(s.drop_last()) * 10 + (s.last() as int - '0' as int)
    }
}

/// Whether every character is an ASCII digit.
pub open spec fn all_digits(s: Seq<char>) -> bool {
    forall|i: int| 0 <= i < s.len() ==> '0' <= #[trigger] s[i] <= '9'
}

/// The number `str::parse::<i64>` reads: an optional sign, then at least one
/// ASCII digit and nothing else, with the value in range.
pub open spec fn parse_i64(s: Seq<char>) -> Option<i64> {
    let neg = s.len() > 0 && s[0] == '-';
    let digits = if s.len() > 0 && (s[0] == '-' || s[0] == '+') {
        s.drop_first()
    } else {
        s
    };
    let v = if neg {
        -digits_value(digits)
    } else {
        digits_value(digits)
    };
    if digits.len() > 0 && all_digits(digits) && i64::MIN <= v <= i64::MAX {
        Some(v as i64)
    } else {
        None
    }
}

pub proof fn lemma_digits_value_nonneg(s: Seq<char>)
    requires
        all_digits(s),
    ensures
        digits_value(s) >= 0,
    decreases s.len(),
{
    if s.len() > 0 {
        lemma_digits_value_nonneg(s.drop_last());
    }
}

proof fn lemma_digit_char(d: nat)
    requires
        d < 10,
    ensures
        '0' <= digit_char(d) <= '9',
        digit_char(d) as int - '0' as int == d,
{
}

/// The decimal notation of `n` is made of digits, and reads back as `n`.
pub proof fn lemma_decimal_digits(n: nat)
    ensures
        decimal(n).len() > 0,
        all_digits(decimal(n)),
        digits_value(decimal(n)) == n,
    decreases n,
{
    let d = decimal(n);
    lemma_digit_char(n % 10);
    if n < 10 {
        assert(d.drop_last() =~= Seq::<char>::empty());
        assert(n % 10 == n);
        assert(d.last() == digit_char(n));
        assert(digits_value(d) == digits_value(d.drop_last()) * 10 + (d.last() as int - '0' as int));
    } else {
        lemma_decimal_digits(n / 10);
        assert(d.drop_last() =~= decimal(n / 10));
        assert(d.last() == digit_char(n % 10));
        assert(digits_value(d) == digits_value(d.drop_last()) * 10 + (d.last() as int - '0' as int));
        assert(n == (n / 10) * 10 + n % 10);
        assert forall|i: int| 0 <= i < d.len() implies '0' <= #[trigger] d[i] <= '9' by {
            if i < d.len() - 1 {
                assert(d[i] == decimal(n / 10)[i]);
            }
        }
    }
}

/// The decimal notation of an integer holds no white space, tab or line
/// break, and `str::parse::<i64>` reads it back.
pub proof fn lemma_signed_decimal(t: i64)
    ensures
        signed_decimal(t as int).len() > 0,
        !is_white_space(signed_decimal(t as int)[0]),
        !is_white_space(signed_decimal(t as int).last()),
        !signed_decimal(t as int).contains('\t'),
        !signed_decimal(t as int).contains('\n'),
        parse_i64(signed_decimal(t as int)) == Some(t),
{
    let s = signed_decimal(t as int);
    if t < 0 {
        let m = (-t) as nat;
        lemma_decimal_digits(m);
        assert(s.drop_first() =~= decimal(m));
        assert(s.last() == decimal(m).last());
        assert(decimal(m)[decimal(m).len() - 1] == decimal(m).last());
        assert forall|i: int| 0 <= i < s.len() implies s[i] != '\t' && s[i] != '\n' by {
            if i > 0 {
                assert(s[i] == decimal(m)[i - 1]);
            }
        }
    } else {
        lemma_decimal_digits(t as nat);
        assert(s[s.len() - 1] == s.last());
        assert forall|i: int| 0 <= i < s.len() implies s[i] != '\t' && s[i] != '\n' by {
            assert('0' <= s[i] <= '9');
        }
    }
}

/// Reads a signed number as `str::parse::<i64>` does.
pub fn parse_i64_chars(s: &Vec<char>) -> (r: Option<i64>)
    ensures
        r == parse_i64(s@),
{
    let n = s.len();
    let mut i: usize = 0;
    let mut neg = false;
    if n > 0 && (s[0] == '-' || s[0] == '+') {
        neg = s[0] == '-';
        i = 1;
    }
    let ghost digits = if s@.len() > 0 && (s@[0] == '-' || s@[0] == '+') {
        s@.drop_first()
    } else {
        s@
    };
    assert(digits =~= s@.skip(i as int));
    if i == n {
        return None;
    }
    let start = i;
    // the value so far, negated when the number is negative, so that
    // i64::MIN can be read
    let mut v: i64 = 0;
    while i < n
        invariant
            start <= i <= n == s@.len(),
            start < n,
            digits == s@.skip(start as int),
            neg == (s@.len() > 0 && s@[0] == '-'),
            digits == (if s@.len() > 0 && (s@[0] == '-' || s@[0] == '+') {
                s@.drop_first()
            } else {
                s@
            }),
            all_digits(s@.subrange(start as int, i as int)),
            v as int == if neg {
                -digits_value(s@.subrange(start as int, i as int))
            } else {
                digits_value(s@.subrange(start as int, i as int))
            },
        decreases n - i,
    {
        let c = s[i];
        let ghost prefix = s@.subrange(start as int, (i + 1) as int);
        assert(prefix.drop_last() =~= s@.subrange(start as int, i as int));
        if !('0' <= c && c <= '9') {
            assert(!all_digits(digits)) by {
                assert(digits[i - start] == c);
            }
            return None;
        }
        let d: i64 = (c as u32 - '0' as u32) as i64;
        assert(d == c as int - '0' as int);
        assert(all_digits(prefix));
        proof {
            lemma_digits_value_nonneg(s@.subrange(start as int, i as int));
        }
        if neg {
            if v < (i64::MIN + d) / 10 || (v * 10) < i64::MIN + d {
                proof {
                    lemma_parse_overflow_sticks(s@, start as nat, (i + 1) as nat, true);
                }
                return None;
            }
            v = v * 10 - d;
        } else {
            if v > (i64::MAX - d) / 10 || (v * 10) > i64::MAX - d {
                proof {
                    lemma_parse_overflow_sticks(s@, start as nat, (i + 1) as nat, false);
                }
                return None;
            }
            v = v * 10 + d;
        }
        i = i + 1;
    }
    assert(s@.subrange(start as int, n as int) =~= digits);
    Some(v)
}

/// Once the digits read so far are out of range, the whole number is too
/// (or is not a number).
proof fn lemma_parse_overflow_sticks(s: Seq<char>, start: nat, i: nat, neg: bool)
    requires
        start <= i <= s.len(),
        all_digits(s.subrange(start as int, i as int)),
        neg ==> -digits_value(s.subrange(start as int, i as int)) < i64::MIN,
        !neg ==> digits_value(s.subrange(start as int, i as int)) > i64::MAX,
    ensures
        !(all_digits(s.skip(start as int)) && (if neg {
            -digits_value(s.skip(start as int))
        } else {
            digits_value(s.skip(start as int))
        }) >= i64::MIN && (if neg {
            -digits_value(s.skip(start as int))
        } else {
            digits_value(s.skip(start as int))
        }) <= i64::MAX),
    decreases s.len() - i,
{
    if i < s.len() {
        let p = s.subrange(start as int, i as int);
        let q = s.subrange(start as int, (i + 1) as int);
        assert(q.drop_last() =~= p);
        if '0' <= s[i as int] <= '9' {
            lemma_digits_value_nonneg(p);
            assert(all_digits(q));
            lemma_parse_overflow_sticks(s, start, i + 1, neg);
        } else {
            assert(s.skip(start as int)[i - start] == s[i as int]);
        }
    } else {
        assert(s.subrange(start as int, i as int) =~= s.skip(start as int));
    }
}

} // verus!
