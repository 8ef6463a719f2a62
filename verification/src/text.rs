//! Plain text helpers over strings seen as sequences of characters.
use vstd::prelude::*;

verus! {

/// Whether `c` has the Unicode property `White_Space`.
pub open spec fn is_white_space(c: char) -> bool {
    ||| '\u{9}' <= c <= '\u{d}'
    ||| c == '\u{20}'
    ||| c == '\u{85}'
    ||| c == '\u{a0}'
    ||| c == '\u{1680}'
    ||| '\u{2000}' <= c <= '\u{200a}'
    ||| c == '\u{2028}'
    ||| c == '\u{2029}'
    ||| c == '\u{202f}'
    ||| c == '\u{205f}'
    ||| c == '\u{3000}'
}

/// `s` without its leading white space.
pub open spec fn trim_front(s: Seq<char>) -> Seq<char>
    decreases s.len(),
{
    if s.len() > 0 && is_white_space(s[0]) {
        trim_front(s.drop_first())
    } else {
        s
    }
}

/// `s` without its trailing white space.
pub open spec fn trim_back(s: Seq<char>) -> Seq<char>
    decreases s.len(),
{
    if s.len() > 0 && is_white_space(s.last()) {
        trim_back(s.drop_last())
    } else {
        s
    }
}

/// `s` without leading and trailing white space.
pub open spec fn trimmed(s: Seq<char>) -> Seq<char> {
    trim_back(trim_front(s))
}

/// Tells whether `c` is white space.
pub fn white_space(c: char) -> (r: bool)
    ensures
        r == is_white_space(c),
{
    ('\u{9}' <= c && c <= '\u{d}') || c == '\u{20}' || c == '\u{85}' || c == '\u{a0}' || c
        == '\u{1680}' || ('\u{2000}' <= c && c <= '\u{200a}') || c == '\u{2028}' || c == '\u{2029}'
        || c == '\u{202f}' || c == '\u{205f}' || c == '\u{3000}'
}

/// The characters of `s`, in order.
pub fn characters(s: &str) -> (r: Vec<char>)
    ensures
        r@ == s@,
{
    let mut r: Vec<char> = Vec::new();
    for c in it: s.chars()
        invariant
            it.seq() == s@,
            r@ == s@.take(it.index()),
    {
        r.push(c);
    }
    r
}

/// Tells whether two strings hold the same characters.
pub fn same_text(a: &str, b: &str) -> (r: bool)
    ensures
        r == (a@ == b@),
{
    a.to_owned() == b.to_owned()
}

/// Tells whether `s` holds the character `c`.
pub fn holds_char(s: &str, c: char) -> (r: bool)
    ensures
        r == s@.contains(c),
{
    let chars = characters(s);
    for i in 0..chars.len()
        invariant
            chars@ == s@,
            forall|j: int| 0 <= j < i ==> s@[j] != c,
    {
        if chars[i] == c {
            assert(s@[i as int] == c);
            return true;
        }
    }
    false
}

/// Whether two neighbouring characters of `s` are `c`.
pub open spec fn has_pair(s: Seq<char>, c: char) -> bool {
    exists|i: int| 0 <= i < s.len() - 1 && #[trigger] s[i] == c && s[i + 1] == c
}

/// Tells whether two neighbouring characters of `s` are `c`.
pub fn holds_pair(s: &str, c: char) -> (r: bool)
    ensures
        r == has_pair(s@, c),
{
    let chars = characters(s);
    if chars.len() == 0 {
        return false;
    }
    for i in 0..chars.len() - 1
        invariant
            chars@ == s@,
            chars.len() > 0,
            forall|j: int| 0 <= j < i ==> !(#[trigger] s@[j] == c && s@[j + 1] == c),
    {
        if chars[i] == c && chars[i + 1] == c {
            assert(s@[i as int] == c && s@[i + 1] == c);
            return true;
        }
    }
    false
}

/// What trimming the front of `s` leaves when everything before `i` is white
/// space and `s[i]` is not.
proof fn lemma_trim_front(s: Seq<char>, i: int)
    requires
        0 <= i <= s.len(),
        forall|j: int| 0 <= j < i ==> is_white_space(#[trigger] s[j]),
        i < s.len() ==> !is_white_space(s[i]),
    ensures
        trim_front(s) == s.skip(i),
    decreases s.len(),
{
    if i == 0 {
        assert(s.skip(0) == s);
    } else {
        assert(is_white_space(s[0]));
        let t = s.drop_first();
        assert forall|j: int| 0 <= j < i - 1 implies is_white_space(#[trigger] t[j]) by {
            assert(t[j] == s[j + 1]);
        }
        lemma_trim_front(t, i - 1);
        assert(t.skip(i - 1) == s.skip(i));
    }
}

/// What trimming the back of `s` leaves when everything from `i` on is white
/// space and the character before is not.
proof fn lemma_trim_back(s: Seq<char>, i: int)
    requires
        0 <= i <= s.len(),
        forall|j: int| i <= j < s.len() ==> is_white_space(#[trigger] s[j]),
        i > 0 ==> !is_white_space(s[i - 1]),
    ensures
        trim_back(s) == s.take(i),
    decreases s.len(),
{
    if i == s.len() {
        assert(s.take(i) == s);
    } else {
        assert(is_white_space(s[s.len() - 1]));
        lemma_trim_back(s.drop_last(), i);
        assert(s.drop_last().take(i) == s.take(i));
    }
}

/// `s` without leading and trailing white space.
pub fn trim(s: &str) -> (r: String)
    ensures
        r@ == trimmed(s@),
{
    let chars = characters(s);
    let n: usize = chars.len();
    let mut a: usize = 0;
    while a < n && white_space(chars[a])
        invariant
            0 <= a <= n,
            n == chars.len(),
            chars@ == s@,
            forall|j: int| 0 <= j < a ==> is_white_space(#[trigger] s@[j]),
        decreases n - a,
    {
        a = a + 1;
    }
    let mut b: usize = n;
    while b > a && white_space(chars[b - 1])
        invariant
            a <= b <= n,
            n == chars.len(),
            chars@ == s@,
            forall|j: int| b <= j < n ==> is_white_space(#[trigger] s@[j]),
        decreases b,
    {
        b = b - 1;
    }
    proof {
        lemma_trim_front(s@, a as int);
        let t = s@.skip(a as int);
        assert forall|j: int| b - a <= j < t.len() implies is_white_space(#[trigger] t[j]) by {
            assert(t[j] == s@[j + a]);
        }
        lemma_trim_back(t, b - a);
        assert(t.take(b - a) == s@.subrange(a as int, b as int));
    }
    s.substring_char(a, b).to_owned()
}

/// The code of `c`, an ASCII capital taken as its small letter.
pub open spec fn folded(c: char) -> u32 {
    if 'A' <= c <= 'Z' {
        (c as u32 + 32) as u32
    } else {
        c as u32
    }
}

/// Whether two texts differ at most in the case of ASCII letters.
pub open spec fn same_folded(a: Seq<char>, b: Seq<char>) -> bool {
    &&& a.len() == b.len()
    &&& forall|i: int| 0 <= i < a.len() ==> folded(#[trigger] a[i]) == folded(b[i])
}

fn fold(c: char) -> (r: u32)
    ensures
        r == folded(c),
{
    let n: u32 = c as u32;
    if 'A' <= c && c <= 'Z' {
        n + 32
    } else {
        n
    }
}

/// Tells whether two texts differ at most in the case of ASCII letters.
pub fn same_ignoring_case(a: &str, b: &str) -> (r: bool)
    ensures
        r == same_folded(a@, b@),
{
    let x = characters(a);
    let y = characters(b);
    if x.len() != y.len() {
        return false;
    }
    for i in 0..x.len()
        invariant
            x@ == a@,
            y@ == b@,
            x.len() == y.len(),
            forall|j: int| 0 <= j < i ==> folded(#[trigger] a@[j]) == folded(b@[j]),
    {
        if fold(x[i]) != fold(y[i]) {
            assert(folded(a@[i as int]) != folded(b@[i as int]));
            return false;
        }
    }
    true
}

/// The part of `s` behind the last `a` or `b`; all of `s` where it holds neither.
pub open spec fn after_last(s: Seq<char>, a: char, b: char) -> Seq<char>
    decreases s.len(),
{
    if s.len() == 0 || s.last() == a || s.last() == b {
        Seq::empty()
    } else {
        after_last(s.drop_last(), a, b).push(s.last())
    }
}

/// The part behind the last `a` or `b` starts right behind it.
pub proof fn lemma_after_last(s: Seq<char>, a: char, b: char, i: int)
    requires
        0 <= i <= s.len(),
        forall|j: int| i <= j < s.len() ==> s[j] != a && s[j] != b,
        i > 0 ==> s[i - 1] == a || s[i - 1] == b,
    ensures
        after_last(s, a, b) == s.skip(i),
    decreases s.len(),
{
    if i == s.len() {
        assert(s.skip(i) == Seq::<char>::empty());
    } else {
        assert(s[s.len() - 1] == s.last());
        lemma_after_last(s.drop_last(), a, b, i);
        assert(s.drop_last().skip(i).push(s.last()) == s.skip(i));
    }
}

/// The part of `s` behind the last `a` or `b`.
pub fn tail_after(s: &str, a: char, b: char) -> (r: String)
    ensures
        r@ == after_last(s@, a, b),
{
    let chars = characters(s);
    let n: usize = chars.len();
    let mut i: usize = n;
    while i > 0 && chars[i - 1] != a && chars[i - 1] != b
        invariant
            0 <= i <= n,
            n == chars.len(),
            chars@ == s@,
            forall|j: int| i <= j < n ==> s@[j] != a && s@[j] != b,
        decreases i,
    {
        i = i - 1;
    }
    proof {
        lemma_after_last(s@, a, b, i as int);
        assert(s@.skip(i as int) == s@.subrange(i as int, n as int));
    }
    s.substring_char(i, n).to_owned()
}

/// Trimming takes nothing but white space off the ends, and takes all of it.
pub proof fn trimmed_is_tight(s: Seq<char>)
    ensures
        trimmed(s).len() > 0 ==> !is_white_space(trimmed(s)[0]) && !is_white_space(
            trimmed(s).last(),
        ),
        exists|i: int, j: int|
            0 <= i <= j <= s.len() && trimmed(s) == #[trigger] s.subrange(i, j) && (forall|k: int|
                0 <= k < i || j <= k < s.len() ==> is_white_space(#[trigger] s[k])),
{
    lemma_front_split(s);
    let i = choose|i: int|
        0 <= i <= s.len() && trim_front(s) == #[trigger] s.skip(i) && (i < s.len()
            ==> !is_white_space(s[i])) && (forall|k: int|
            0 <= k < i ==> is_white_space(#[trigger] s[k]));
    let t = trim_front(s);
    lemma_back_split(t);
    let n = choose|n: int|
        0 <= n <= t.len() && trim_back(t) == #[trigger] t.take(n) && (n > 0
            ==> !is_white_space(t[n - 1])) && (forall|k: int|
            n <= k < t.len() ==> is_white_space(#[trigger] t[k]));
    assert(trimmed(s) == s.subrange(i, i + n));
    assert forall|k: int| 0 <= k < i || i + n <= k < s.len() implies is_white_space(
        #[trigger] s[k],
    ) by {
        if k >= i + n {
            assert(t[k - i] == s[k]);
        }
    }
    if n > 0 {
        assert(t[0] == s[i]);
        assert(trimmed(s)[0] == s[i]);
        assert(trimmed(s).last() == t[n - 1]);
    }
}

proof fn lemma_front_split(s: Seq<char>)
    ensures
        exists|i: int|
            0 <= i <= s.len() && trim_front(s) == #[trigger] s.skip(i) && (i < s.len()
                ==> !is_white_space(s[i])) && (forall|k: int|
                0 <= k < i ==> is_white_space(#[trigger] s[k])),
    decreases s.len(),
{
    if s.len() > 0 && is_white_space(s[0]) {
        let t = s.drop_first();
        lemma_front_split(t);
        let i = choose|i: int|
            0 <= i <= t.len() && trim_front(t) == #[trigger] t.skip(i) && (i < t.len()
                ==> !is_white_space(t[i])) && (forall|k: int|
                0 <= k < i ==> is_white_space(#[trigger] t[k]));
        assert(t.skip(i) == s.skip(i + 1));
        assert forall|k: int| 0 <= k < i + 1 implies is_white_space(#[trigger] s[k]) by {
            if k > 0 {
                assert(t[k - 1] == s[k]);
            }
        }
    } else {
        assert(s.skip(0) == s);
    }
}

proof fn lemma_back_split(s: Seq<char>)
    ensures
        exists|n: int|
            0 <= n <= s.len() && trim_back(s) == #[trigger] s.take(n) && (n > 0
                ==> !is_white_space(s[n - 1])) && (forall|k: int|
                n <= k < s.len() ==> is_white_space(#[trigger] s[k])),
    decreases s.len(),
{
    if s.len() > 0 && is_white_space(s.last()) {
        let t = s.drop_last();
        lemma_back_split(t);
        let n = choose|n: int|
            0 <= n <= t.len() && trim_back(t) == #[trigger] t.take(n) && (n > 0
                ==> !is_white_space(t[n - 1])) && (forall|k: int|
                n <= k < t.len() ==> is_white_space(#[trigger] t[k]));
        assert(t.take(n) == s.take(n));
        assert forall|k: int| n <= k < s.len() implies is_white_space(#[trigger] s[k]) by {
            if k < t.len() {
                assert(t[k] == s[k]);
            }
        }
    } else {
        assert(s.take(s.len() as int) == s);
    }
}

/// Trimming a trimmed text changes nothing.
pub proof fn trim_is_idempotent(s: Seq<char>)
    ensures
        trimmed(trimmed(s)) == trimmed(s),
{
    trimmed_is_tight(s);
    let t = trimmed(s);
    lemma_trim_front(t, 0);
    assert(t.skip(0) == t);
    lemma_trim_back(t, t.len() as int);
    assert(t.take(t.len() as int) == t);
}

/// The character of a decimal digit.
pub open spec fn digit(n: int) -> char {
    if n == 0 {
        '0'
    } else if n == 1 {
        '1'
    } else if n == 2 {
        '2'
    } else if n == 3 {
        '3'
    } else if n == 4 {
        '4'
    } else if n == 5 {
        '5'
    } else if n == 6 {
        '6'
    } else if n == 7 {
        '7'
    } else if n == 8 {
        '8'
    } else {
        '9'
    }
}

/// The decimal digits of a number that is not negative.
pub open spec fn digits(n: nat) -> Seq<char>
    decreases n,
{
    if n < 10 {
        seq![digit(n as int)]
    } else {
        digits(n / 10).push(digit((n % 10) as int))
    }
}

/// A number in decimal, with a minus sign where it is negative.
pub open spec fn decimal(n: int) -> Seq<char> {
    if n < 0 {
        seq!['-'] + digits((-n) as nat)
    } else {
        digits(n as nat)
    }
}

fn digit_text(n: u128) -> (r: &'static str)
    requires
        n < 10,
    ensures
        r@ == seq![digit(n as int)],
{
    proof {
        reveal_strlit("0");
        reveal_strlit("1");
        reveal_strlit("2");
        reveal_strlit("3");
        reveal_strlit("4");
        reveal_strlit("5");
        reveal_strlit("6");
        reveal_strlit("7");
        reveal_strlit("8");
        reveal_strlit("9");
    }
    if n == 0 {
        "0"
    } else if n == 1 {
        "1"
    } else if n == 2 {
        "2"
    } else if n == 3 {
        "3"
    } else if n == 4 {
        "4"
    } else if n == 5 {
        "5"
    } else if n == 6 {
        "6"
    } else if n == 7 {
        "7"
    } else if n == 8 {
        "8"
    } else {
        "9"
    }
}

fn digits_text(n: u128) -> (r: String)
    ensures
        r@ == digits(n as nat),
    decreases n,
{
    if n < 10 {
        digit_text(n).to_owned()
    } else {
        let mut r = digits_text(n / 10);
        r.append(digit_text(n % 10));
        r
    }
}

/// A number in decimal.
pub fn decimal_text(n: i64) -> (r: String)
    ensures
        r@ == decimal(n as int),
{
    if n < 0 {
        let mut r = "-".to_owned();
        let m: i128 = -(n as i128);
        let d = digits_text(m as u128);
        r.append(d.as_str());
        proof {
            reveal_strlit("-");
        }
        r
    } else {
        digits_text(n as u128)
    }
}

proof fn lemma_digits_distinct(n: nat, m: nat)
    requires
        digits(n) == digits(m),
    ensures
        n == m,
    decreases n,
{
    lemma_digits_len(n);
    lemma_digits_len(m);
    if n < 10 {
        assert(digits(n)[0] == digit(n as int));
        assert(digits(m)[0] == digit(m as int));
    } else {
        assert(digits(n).last() == digit((n % 10) as int));
        assert(digits(m).last() == digit((m % 10) as int));
        assert(digits(n).drop_last() == digits(n / 10));
        assert(digits(m).drop_last() == digits(m / 10));
        lemma_digits_distinct(n / 10, m / 10);
    }
}

proof fn lemma_digits_len(n: nat)
    ensures
        digits(n).len() >= 1,
        n >= 10 <==> digits(n).len() >= 2,
        digits(n)[0] != '-',
    decreases n,
{
    if n >= 10 {
        lemma_digits_len(n / 10);
    }
}

/// Two numbers that differ are written differently.
pub proof fn decimals_are_distinct(n: int, m: int)
    requires
        n != m,
    ensures
        decimal(n) != decimal(m),
{
    if decimal(n) == decimal(m) {
        if n < 0 {
            lemma_digits_len((-n) as nat);
            assert(decimal(n)[0] == '-');
        } else {
            lemma_digits_len(n as nat);
        }
        if m < 0 {
            lemma_digits_len((-m) as nat);
            assert(decimal(m)[0] == '-');
        } else {
            lemma_digits_len(m as nat);
        }
        if n < 0 {
            assert(decimal(n).drop_first() == digits((-n) as nat));
            assert(decimal(m).drop_first() == digits((-m) as nat));
            lemma_digits_distinct((-n) as nat, (-m) as nat);
        } else {
            lemma_digits_distinct(n as nat, m as nat);
        }
    }
}

/// White space is the tab and the four line ends behind it, the spaces of every
/// width, and the two separators of lines and paragraphs; nothing else is.
pub proof fn white_space_is_what_unicode_lists(c: char)
    ensures
        is_white_space(c) <==> {
            let n = c as int;
            ||| n == 0x9 || n == 0xa || n == 0xb || n == 0xc || n == 0xd
            ||| n == 0x20 || n == 0x85 || n == 0xa0 || n == 0x1680
            ||| 0x2000 <= n <= 0x200a
            ||| n == 0x2028 || n == 0x2029 || n == 0x202f || n == 0x205f || n == 0x3000
        },
{
}

/// Folding takes a small and a large ASCII letter for the same, and no other two
/// characters.
pub proof fn folding_joins_the_cases(c: char, d: char)
    ensures
        folded(c) == folded(d) <==> {
            ||| c == d
            ||| 'A' <= c <= 'Z' && d as int == c as int + 32
            ||| 'A' <= d <= 'Z' && c as int == d as int + 32
        },
{
}

/// Two texts are the same but for case where they are equally long and at every
/// place the same but for case.
pub proof fn folded_texts_agree_everywhere(a: Seq<char>, b: Seq<char>)
    ensures
        same_folded(a, b) <==> a.len() == b.len() && forall|i: int|
            0 <= i < a.len() ==> {
                ||| #[trigger] a[i] == b[i]
                ||| 'A' <= a[i] <= 'Z' && b[i] as int == a[i] as int + 32
                ||| 'A' <= b[i] <= 'Z' && a[i] as int == b[i] as int + 32
            },
{
    if a.len() == b.len() {
        assert forall|i: int| 0 <= i < a.len() implies (folded(#[trigger] a[i]) == folded(b[i])
            <==> {
            ||| a[i] == b[i]
            ||| 'A' <= a[i] <= 'Z' && b[i] as int == a[i] as int + 32
            ||| 'A' <= b[i] <= 'Z' && a[i] as int == b[i] as int + 32
        }) by {
            folding_joins_the_cases(a[i], b[i]);
        }
    }
}

/// What stands behind the last of two characters is the end of the text, holds
/// neither of them, and starts right behind one, unless it is the whole text.
pub proof fn lemma_after_last_is_tail(s: Seq<char>, a: char, b: char)
    ensures
        after_last(s, a, b).len() <= s.len(),
        s.skip(s.len() - after_last(s, a, b).len()) == after_last(s, a, b),
        forall|i: int|
            0 <= i < after_last(s, a, b).len() ==> (#[trigger] after_last(s, a, b)[i]) != a
                && after_last(s, a, b)[i] != b,
        after_last(s, a, b).len() < s.len() ==> {
            let c = s[s.len() - after_last(s, a, b).len() - 1];
            c == a || c == b
        },
    decreases s.len(),
{
    let t = after_last(s, a, b);
    if s.len() == 0 || s.last() == a || s.last() == b {
        assert(s.skip(s.len() as int) == Seq::<char>::empty());
    } else {
        let init = s.drop_last();
        lemma_after_last_is_tail(init, a, b);
        let k = init.len() - after_last(init, a, b).len();
        assert(init.skip(k).push(s.last()) == s.skip(k));
    }
}

/// A pair is two equal characters side by side.
pub proof fn pairs_stand_side_by_side(s: Seq<char>, c: char)
    ensures
        has_pair(s, c) <==> exists|i: int, j: int|
            0 <= i && j == i + 1 && j < s.len() && #[trigger] s[i] == c && #[trigger] s[j] == c,
{
    if has_pair(s, c) {
        let i = choose|i: int| 0 <= i < s.len() - 1 && #[trigger] s[i] == c && s[i + 1] == c;
        let j = i + 1;
        assert(s[i] == c && s[j] == c);
    }
}

/// The number that a text of decimal digits stands for.
pub open spec fn number_read(s: Seq<char>) -> int
    decreases s.len(),
{
    if s.len() == 0 {
        0
    } else {
        10 * number_read(s.drop_last()) + (s.last() as int - 0x30)
    }
}

proof fn lemma_digits_read(n: nat)
    ensures
        digits(n).len() > 0,
        number_read(digits(n)) == n,
        forall|i: int| 0 <= i < digits(n).len() ==> '0' <= #[trigger] digits(n)[i] <= '9',
        n > 0 ==> digits(n)[0] != '0',
    decreases n,
{
    let s = digits(n);
    if n < 10 {
        assert(s.drop_last() == Seq::<char>::empty());
        assert(number_read(s.drop_last()) == 0);
        assert(s.last() == digit(n as int));
    } else {
        lemma_digits_read(n / 10);
        assert(s.drop_last() == digits(n / 10));
        assert(s.last() == digit((n % 10) as int));
        assert(s[0] == digits(n / 10)[0]);
        assert forall|i: int| 0 <= i < s.len() implies '0' <= #[trigger] s[i] <= '9' by {
            if i < s.len() - 1 {
                assert(s[i] == digits(n / 10)[i]);
            }
        }
    }
}

/// A number in decimal reads as that number: digits that stand for its size,
/// without a leading zero, and a minus sign in front where it is negative.
pub proof fn decimals_read_back(n: int, size: Seq<char>)
    requires
        size == if n < 0 {
            decimal(n).skip(1)
        } else {
            decimal(n)
        },
    ensures
        n < 0 ==> decimal(n).len() > 0 && decimal(n)[0] == '-',
        size.len() > 0,
        forall|i: int| 0 <= i < size.len() ==> '0' <= #[trigger] size[i] <= '9',
        n < 0 ==> number_read(size) == -n,
        n >= 0 ==> number_read(size) == n,
        n != 0 ==> size[0] != '0',
        n == 0 ==> size.len() == 1,
{
    if n < 0 {
        lemma_digits_read((-n) as nat);
        assert(size == digits((-n) as nat));
    } else {
        lemma_digits_read(n as nat);
    }
}

/// A text trims to nothing exactly where it holds nothing but white space.
pub proof fn blank_texts_trim_to_nothing(s: Seq<char>)
    ensures
        trimmed(s).len() > 0 <==> exists|i: int|
            0 <= i < s.len() && !is_white_space(#[trigger] s[i]),
{
    trimmed_is_tight(s);
    let (i, j) = choose|i: int, j: int|
        0 <= i <= j <= s.len() && trimmed(s) == #[trigger] s.subrange(i, j) && (forall|k: int|
            0 <= k < i || j <= k < s.len() ==> is_white_space(#[trigger] s[k]));
    if trimmed(s).len() > 0 {
        assert(trimmed(s)[0] == s[i]);
    }
    if exists|k: int| 0 <= k < s.len() && !is_white_space(#[trigger] s[k]) {
        let k = choose|k: int| 0 <= k < s.len() && !is_white_space(#[trigger] s[k]);
        assert(i <= k < j);
    }
}

} // verus!
