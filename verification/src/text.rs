use vstd::prelude::*;

verus! {

// ---------------------------------------------------------------------------
// Characters and strings
// ---------------------------------------------------------------------------

/// The characters of a string slice, in order.
pub fn chars_of(s: &str) -> (v: Vec<char>)
    ensures
        v@ == s@,
{
    let mut v: Vec<char> = Vec::new();
    for c in it: s.chars()
        invariant
            v@ == it.seq().take(it.index()),
    {
        v.push(c);
    }
    assert(v@ =~= s@);
    v
}

/// Appends one character to a string (`String::push`).
#[verifier::external_body]
pub(crate) fn push_char(s: &mut String, c: char)
    ensures
        final(s)@ == old(s)@.push(c),
{
    s.push(c);
}

/// The string made of the given characters, in order.
pub fn string_of(chars: &Vec<char>) -> (s: String)
    ensures
        s@ == chars@,
{
    let mut s = String::new();
    for i in 0..chars.len()
        invariant
            s@ == chars@.take(i as int),
    {
        push_char(&mut s, chars[i]);
        assert(chars@.take(i + 1) =~= chars@.take(i as int).push(chars@[i as int]));
    }
    assert(chars@.take(chars@.len() as int) =~= chars@);
    s
}

// ---------------------------------------------------------------------------
// White space
// ---------------------------------------------------------------------------

/// The Unicode `White_Space` property, which `char::is_whitespace` tests.
pub open spec fn is_white(c: char) -> bool {
    let u = c as u32;
    ||| 0x9 <= u <= 0xD
    ||| u == 0x20
    ||| u == 0x85
    ||| u == 0xA0
    ||| u == 0x1680
    ||| 0x2000 <= u <= 0x200A
    ||| u == 0x2028
    ||| u == 0x2029
    ||| u == 0x202F
    ||| u == 0x205F
    ||| u == 0x3000
}

/// Whether a character is white space in the sense of Unicode.
pub fn is_whitespace(c: char) -> (b: bool)
    ensures
        b == is_white(c),
{
    let u = c as u32;
    (0x9 <= u && u <= 0xD) || u == 0x20 || u == 0x85 || u == 0xA0 || u == 0x1680 || (0x2000 <= u
        && u <= 0x200A) || u == 0x2028 || u == 0x2029 || u == 0x202F || u == 0x205F || u == 0x3000
}

/// `s[a..b]` is what remains of `s` once white space is taken off both ends.
pub open spec fn trim_bounds(s: Seq<char>, a: int, b: int) -> bool {
    &&& 0 <= a <= b <= s.len()
    &&& forall|i: int| 0 <= i < a ==> is_white(#[trigger] s[i])
    &&& forall|i: int| b <= i < s.len() ==> is_white(#[trigger] s[i])
    &&& a < b ==> !is_white(s[a]) && !is_white(s[b - 1])
}

/// `t` is `s` with leading and trailing white space removed.
pub open spec fn is_trim_of(t: Seq<char>, s: Seq<char>) -> bool {
    exists|a: int, b: int| trim_bounds(s, a, b) && t == s.subrange(a, b)
}

/// The string with leading and trailing white space removed (`str::trim`).
pub fn trim(s: &str) -> (t: String)
    ensures
        is_trim_of(t@, s@),
{
    let cs = chars_of(s);
    let n = cs.len();
    let mut a: usize = 0;
    while a < n && is_whitespace(cs[a])
        invariant
            a <= n,
            n == cs@.len(),
            forall|i: int| 0 <= i < a ==> is_white(#[trigger] cs@[i]),
        decreases n - a,
    {
        a = a + 1;
    }
    let mut b: usize = n;
    while b > a && is_whitespace(cs[b - 1])
        invariant
            a <= b <= n,
            n == cs@.len(),
            forall|i: int| b <= i < n ==> is_white(#[trigger] cs@[i]),
        decreases b,
    {
        b = b - 1;
    }
    let mut out: Vec<char> = Vec::new();
    let mut k: usize = a;
    while k < b
        invariant
            a <= k <= b <= n,
            n == cs@.len(),
            out@ == cs@.subrange(a as int, k as int),
        decreases b - k,
    {
        out.push(cs[k]);
        k = k + 1;
        assert(out@ =~= cs@.subrange(a as int, k as int));
    }
    assert(trim_bounds(s@, a as int, b as int));
    string_of(&out)
}

// ---------------------------------------------------------------------------
// Words separated by white space
// ---------------------------------------------------------------------------

/// The length of the run of non-white characters that starts `s`.
pub open spec fn word_len(s: Seq<char>) -> nat
    decreases s.len(),
{
    if s.len() == 0 || is_white(s[0]) {
        0
    } else {
        1 + word_len(s.drop_first())
    }
}

/// The maximal runs of non-white characters of `s`, in order
/// (what `str::split_whitespace` yields).
pub open spec fn words(s: Seq<char>) -> Seq<Seq<char>>
    decreases s.len(),
{
    if s.len() == 0 {
        Seq::empty()
    } else if is_white(s[0]) {
        words(s.drop_first())
    } else {
        let n = word_len(s);
        proof {
            lemma_word_len_bounds(s);
        }
        seq![s.take(n as int)] + words(s.skip(n as int))
    }
}

/// A word of `s` is no longer than `s`, and not empty when `s` starts with a non-white character.
pub proof fn lemma_word_len_bounds(s: Seq<char>)
    ensures
        word_len(s) <= s.len(),
        s.len() > 0 && !is_white(s[0]) ==> word_len(s) >= 1,
    decreases s.len(),
{
    if s.len() > 0 && !is_white(s[0]) {
        lemma_word_len_bounds(s.drop_first());
    }
}

proof fn lemma_word_len(t: Seq<char>, j: int)
    requires
        0 <= j <= t.len(),
        forall|k: int| 0 <= k < j ==> !is_white(#[trigger] t[k]),
        j == t.len() || is_white(t[j]),
    ensures
        word_len(t) == j,
    decreases j,
{
    if j > 0 {
        assert(!is_white(t[0]));
        let r = t.drop_first();
        assert forall|k: int| 0 <= k < j - 1 implies !is_white(#[trigger] r[k]) by {
            assert(r[k] == t[k + 1]);
        }
        lemma_word_len(r, j - 1);
    }
}

/// Skipping a white character does not change the words that follow.
pub proof fn lemma_words_white(s: Seq<char>, i: int)
    requires
        0 <= i < s.len(),
        is_white(s[i]),
    ensures
        words(s.skip(i)) == words(s.skip(i + 1)),
{
    assert(s.skip(i).drop_first() =~= s.skip(i + 1));
}

/// A run of non-white characters, ended by white space or the end, is the next word.
pub proof fn lemma_words_word(s: Seq<char>, a: int, b: int)
    requires
        0 <= a < b <= s.len(),
        forall|k: int| a <= k < b ==> !is_white(#[trigger] s[k]),
        b == s.len() || is_white(s[b]),
    ensures
        words(s.skip(a)) == seq![s.subrange(a, b)] + words(s.skip(b)),
{
    let t = s.skip(a);
    assert forall|k: int| 0 <= k < b - a implies !is_white(#[trigger] t[k]) by {
        assert(t[k] == s[a + k]);
    }
    lemma_word_len(t, b - a);
    assert(t.take(b - a) =~= s.subrange(a, b));
    assert(t.skip(b - a) =~= s.skip(b));
}

/// The views of a list of character vectors.
pub open spec fn views(v: Seq<Vec<char>>) -> Seq<Seq<char>> {
    v.map_values(|w: Vec<char>| w@)
}

/// The words of `s` (`str::split_whitespace`).
pub fn split_whitespace(s: &Vec<char>) -> (ws: Vec<Vec<char>>)
    ensures
        views(ws@) == words(s@),
{
    let n = s.len();
    let mut out: Vec<Vec<char>> = Vec::new();
    let mut i: usize = 0;
    assert(s@.skip(0) =~= s@);
    while i < n
        invariant
            i <= n,
            n == s@.len(),
            words(s@) == views(out@) + words(s@.skip(i as int)),
        decreases n - i,
    {
        if is_whitespace(s[i]) {
            proof {
                lemma_words_white(s@, i as int);
            }
            i = i + 1;
        } else {
            let start = i;
            let mut w: Vec<char> = Vec::new();
            while i < n && !is_whitespace(s[i])
                invariant
                    start <= i <= n,
                    n == s@.len(),
                    w@ == s@.subrange(start as int, i as int),
                    forall|k: int| start <= k < i ==> !is_white(#[trigger] s@[k]),
                decreases n - i,
            {
                w.push(s[i]);
                i = i + 1;
                assert(w@ =~= s@.subrange(start as int, i as int));
            }
            proof {
                lemma_words_word(s@, start as int, i as int);
            }
            let ghost before = out@;
            out.push(w);
            assert(views(out@) =~= views(before) + seq![s@.subrange(start as int, i as int)]);
        }
    }
    assert(s@.skip(n as int) =~= Seq::<char>::empty());
    assert(views(out@) + words(s@.skip(n as int)) =~= views(out@));
    out
}

// ---------------------------------------------------------------------------
// Decimal numbers
// ---------------------------------------------------------------------------

/// The character of the decimal digit `d`, for `0 <= d < 10`.
pub open spec fn digit_char(d: int) -> char {
    (d + 48) as char
}

/// The decimal digits of a natural number, most significant first, without leading zeros.
pub open spec fn digits_of(n: nat) -> Seq<char>
    decreases n,
{
    if n < 10 {
        seq![digit_char(n as int)]
    } else {
        digits_of(n / 10).push(digit_char((n % 10) as int))
    }
}

/// The decimal notation of an integer, as `Display` writes it: a minus sign
/// before negative numbers, no sign before the others.
pub open spec fn decimal(n: int) -> Seq<char> {
    if n < 0 {
        seq!['-'] + digits_of((-n) as nat)
    } else {
        digits_of(n as nat)
    }
}

fn push_digits(n: u128, out: &mut Vec<char>)
    ensures
        final(out)@ == old(out)@ + digits_of(n as nat),
    decreases n,
{
    if n >= 10 {
        push_digits(n / 10, out);
    }
    let d: u8 = (n % 10) as u8;
    out.push((d + 48) as char);
    assert(final(out)@ =~= old(out)@ + digits_of(n as nat));
}

/// The decimal notation of a signed number.
pub fn format_isize(n: isize) -> (s: String)
    ensures
        s@ == decimal(n as int),
{
    let mut out: Vec<char> = Vec::new();
    if n < 0 {
        out.push('-');
        let m: i128 = n as i128;
        push_digits((-m) as u128, &mut out);
    } else {
        push_digits(n as u128, &mut out);
    }
    assert(out@ =~= decimal(n as int));
    string_of(&out)
}

/// The decimal notation of an unsigned number.
pub fn format_usize(n: usize) -> (s: String)
    ensures
        s@ == decimal(n as int),
{
    let mut out: Vec<char> = Vec::new();
    push_digits(n as u128, &mut out);
    assert(out@ =~= decimal(n as int));
    string_of(&out)
}

/// An ASCII decimal digit.
pub open spec fn is_digit(c: char) -> bool {
    48 <= (c as u32) <= 57
}

/// The value of an ASCII decimal digit.
pub open spec fn digit_value(c: char) -> int {
    (c as u32) - 48
}

/// Every character of `d` is a decimal digit.
pub open spec fn all_digits(d: Seq<char>) -> bool {
    forall|i: int| 0 <= i < d.len() ==> is_digit(#[trigger] d[i])
}

/// The value of a run of decimal digits, most significant first.
pub open spec fn value_of(d: Seq<char>) -> int
    decreases d.len(),
{
    if d.len() == 0 {
        0
    } else {
        10 * value_of(d.drop_last()) + digit_value(d.last())
    }
}

/// The integer that a token denotes as `str::parse` reads it: an optional
/// `+` or `-` followed by at least one decimal digit, nothing else.
pub open spec fn int_of(t: Seq<char>) -> Option<int> {
    if t.len() > 0 && (t[0] == '+' || t[0] == '-') {
        let d = t.drop_first();
        if d.len() > 0 && all_digits(d) {
            Some(
                if t[0] == '-' {
                    -value_of(d)
                } else {
                    value_of(d)
                },
            )
        } else {
            None
        }
    } else if t.len() > 0 && all_digits(t) {
        Some(value_of(t))
    } else {
        None
    }
}

/// What `str::parse::<isize>` gives: the denoted integer when it fits in an `isize`.
pub open spec fn isize_of(t: Seq<char>) -> Option<isize> {
    match int_of(t) {
        Some(v) => if isize::MIN <= v <= isize::MAX {
            Some(v as isize)
        } else {
            None
        },
        None => None,
    }
}

proof fn lemma_value_nonneg(d: Seq<char>)
    requires
        all_digits(d),
    ensures
        value_of(d) >= 0,
    decreases d.len(),
{
    if d.len() > 0 {
        assert(d.drop_last() =~= d.subrange(0, d.len() - 1));
        assert(is_digit(d[d.len() - 1]));
        lemma_value_nonneg(d.drop_last());
    }
}

proof fn lemma_value_prefix(d: Seq<char>, k: int)
    requires
        all_digits(d),
        0 <= k <= d.len(),
    ensures
        value_of(d.take(k)) <= value_of(d),
    decreases d.len(),
{
    if k < d.len() {
        let p = d.drop_last();
        assert(is_digit(d[d.len() - 1]));
        assert(all_digits(p));
        lemma_value_prefix(p, k);
        assert(p.take(k) =~= d.take(k));
        lemma_value_nonneg(p);
    } else {
        assert(d.take(k) =~= d);
    }
}

/// A token read as a signed number (`str::parse::<isize>`).
pub fn parse_isize(t: &Vec<char>) -> (r: Option<isize>)
    ensures
        r == isize_of(t@),
{
    let n = t.len();
    if n == 0 {
        return None;
    }
    let mut start: usize = 0;
    let mut neg = false;
    if t[0] == '+' {
        start = 1;
    } else if t[0] == '-' {
        start = 1;
        neg = true;
    }
    if start == n {
        return None;
    }
    let ghost d = t@.subrange(start as int, n as int);
    assert(start == 1 ==> d =~= t@.drop_first());
    assert(start == 0 ==> d =~= t@);
    let bound: i128 = isize::MAX as i128 + 1;
    let mut acc: i128 = 0;
    let mut k: usize = start;
    while k < n
        invariant
            start <= k <= n,
            n == t@.len(),
            d == t@.subrange(start as int, n as int),
            0 <= acc <= bound,
            bound == isize::MAX + 1,
            n > 0,
            start < n,
            start <= 1,
            start == 1 <==> (t@[0] == '+' || t@[0] == '-'),
            start == 0 ==> d == t@,
            start == 1 ==> d == t@.drop_first(),
            neg <==> t@[0] == '-',
            acc == value_of(t@.subrange(start as int, k as int)),
            all_digits(t@.subrange(start as int, k as int)),
        decreases n - k,
    {
        let c = t[k];
        let u = c as u32;
        if u < 48 || u > 57 {
            assert(d[k - start] == c);
            return None;
        }
        let ghost prev = t@.subrange(start as int, k as int);
        let ghost next = t@.subrange(start as int, k + 1);
        assert(next.drop_last() =~= prev);
        assert(next.last() == c);
        acc = acc * 10 + (u - 48) as i128;
        assert(acc == value_of(next));
        assert(all_digits(next));
        if acc > bound {
            proof {
                if all_digits(d) {
                    assert(d.take(k + 1 - start) =~= next);
                    lemma_value_prefix(d, k + 1 - start);
                }
            }
            return None;
        }
        k = k + 1;
    }
    assert(t@.subrange(start as int, n as int) =~= d);
    let v: i128 = if neg {
        -acc
    } else {
        acc
    };
    if v < isize::MIN as i128 || v > isize::MAX as i128 {
        None
    } else {
        Some(v as isize)
    }
}

/// The decimal notation of a number reads back as that number.
pub proof fn lemma_digits_read_back(m: nat)
    ensures
        digits_of(m).len() >= 1,
        all_digits(digits_of(m)),
        value_of(digits_of(m)) == m,
    decreases m,
{
    if m < 10 {
        assert(digit_char(m as int) as u32 == m + 48);
        assert(digits_of(m).drop_last() =~= Seq::<char>::empty());
        assert(digit_value(digit_char(m as int)) == m);
        assert(value_of(digits_of(m)) == 10 * value_of(Seq::<char>::empty()) + m);
    } else {
        assert(m == 10 * (m / 10) + m % 10);
        lemma_digits_read_back(m / 10);
        let p = digits_of(m / 10);
        let s = digits_of(m);
        let r: int = (m % 10) as int;
        assert(digit_char(r) as u32 == r + 48);
        assert(s.drop_last() =~= p);
        assert(s.last() == digit_char(r));
        assert(value_of(s) == 10 * value_of(p) + r);
        assert forall|i: int| 0 <= i < s.len() implies is_digit(#[trigger] s[i]) by {
            if i < p.len() {
                assert(s[i] == p[i]);
            }
        }
    }
}

/// The digits of a natural number read back as that number.
pub proof fn lemma_digits_parse(m: nat)
    ensures
        all_digits(digits_of(m)),
        int_of(digits_of(m)) == Some(m as int),
{
    lemma_digits_read_back(m);
    assert(is_digit(digits_of(m)[0]));
}

/// No character of a decimal notation is white space.
pub proof fn lemma_decimal_not_white(n: int)
    ensures
        forall|i: int| 0 <= i < decimal(n).len() ==> !is_white(#[trigger] decimal(n)[i]),
{
    let m: nat = if n < 0 { (-n) as nat } else { n as nat };
    lemma_digits_read_back(m);
    let d = digits_of(m);
    assert forall|i: int| 0 <= i < decimal(n).len() implies !is_white(#[trigger] decimal(n)[i]) by {
        if n < 0 {
            if i > 0 {
                assert(decimal(n)[i] == d[i - 1]);
                assert(is_digit(d[i - 1]));
            }
        } else {
            assert(is_digit(d[i]));
        }
    }
}

/// Reading back the decimal notation of an `isize` gives that `isize`.
pub proof fn lemma_decimal_parses(n: isize)
    ensures
        isize_of(decimal(n as int)) == Some(n),
        decimal(n as int).len() >= 1,
{
    if n < 0 {
        let m: nat = (-n) as nat;
        lemma_digits_read_back(m);
        assert(decimal(n as int).drop_first() =~= digits_of(m));
    } else {
        lemma_digits_read_back(n as nat);
        assert(is_digit(decimal(n as int)[0]));
    }
}

} // verus!
