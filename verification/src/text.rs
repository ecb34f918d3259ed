//! Text as sequences of characters: searching, trimming, decimal numbers.

use vstd::prelude::*;

verus! {

/// The characters of `s`, in order.
pub fn chars_of(s: &str) -> (r: Vec<char>)
    ensures
        r@ == s@,
{
    let mut r: Vec<char> = Vec::new();
    for c in it: s.chars()
        invariant
            it.seq() == s@,
            r@ == s@.take(it.index() as int),
    {
        r.push(c);
    }
    assert(s@.take(s@.len() as int) == s@);
    r
}

/// The code point of `c`.
fn code_point(c: char) -> (r: u32)
    ensures
        r == c as int,
{
    c as u32
}

/// Whether two pieces of text hold the same characters.
pub fn text_eq(a: &str, b: &str) -> (r: bool)
    ensures
        r == (a@ == b@),
{
    let x = chars_of(a);
    let y = chars_of(b);
    if x.len() != y.len() {
        return false;
    }
    let mut i: usize = 0;
    while i < x.len()
        invariant
            x@ == a@,
            y@ == b@,
            x@.len() == y@.len(),
            i <= x@.len(),
            forall|k: int| 0 <= k < i ==> x@[k] == y@[k],
        decreases x@.len() - i,
    {
        if x[i] != y[i] {
            return false;
        }
        i += 1;
    }
    assert(a@ =~= b@);
    true
}

/// `a` followed by `b`.
pub fn join2(a: &str, b: &str) -> (r: String)
    ensures
        r@ == a@ + b@,
{
    let mut out = String::new();
    out.append(a);
    out.append(b);
    assert(out@ =~= a@ + b@);
    out
}

/// `a`, `b` and `c`, one after another.
pub fn join3(a: &str, b: &str, c: &str) -> (r: String)
    ensures
        r@ == a@ + b@ + c@,
{
    let mut out = join2(a, b);
    out.append(c);
    out
}

/// The characters of an optional piece of text.
pub open spec fn opt_text(s: Option<String>) -> Option<Seq<char>> {
    match s {
        Some(t) => Some(t@),
        None => None,
    }
}

/// The characters of an optional borrowed piece of text.
pub open spec fn opt_str(s: Option<&str>) -> Option<Seq<char>> {
    match s {
        Some(t) => Some(t@),
        None => None,
    }
}

/// The values of pairs of texts.
pub open spec fn pair_views(pairs: Seq<(String, String)>) -> Seq<(Seq<char>, Seq<char>)> {
    pairs.map_values(|p: (String, String)| (p.0@, p.1@))
}

/// The characters with the Unicode property `White_Space`.
pub open spec fn is_space(c: char) -> bool {
    let n = c as int;
    ||| 0x9 <= n <= 0xd
    ||| n == 0x20
    ||| n == 0x85
    ||| n == 0xa0
    ||| n == 0x1680
    ||| 0x2000 <= n <= 0x200a
    ||| n == 0x2028
    ||| n == 0x2029
    ||| n == 0x202f
    ||| n == 0x205f
    ||| n == 0x3000
}

fn space(c: char) -> (r: bool)
    ensures
        r == is_space(c),
{
    let n: u32 = code_point(c);
    (0x9 <= n && n <= 0xd) || n == 0x20 || n == 0x85 || n == 0xa0 || n == 0x1680 || (0x2000 <= n
        && n <= 0x200a) || n == 0x2028 || n == 0x2029 || n == 0x202f || n == 0x205f || n == 0x3000
}

/// `s` without its leading white space.
pub open spec fn trimmed_start(s: Seq<char>) -> Seq<char>
    decreases s.len(),
{
    if s.len() > 0 && is_space(s.first()) {
        trimmed_start(s.drop_first())
    } else {
        s
    }
}

/// `s` without its trailing white space.
pub open spec fn trimmed_end(s: Seq<char>) -> Seq<char>
    decreases s.len(),
{
    if s.len() > 0 && is_space(s.last()) {
        trimmed_end(s.drop_last())
    } else {
        s
    }
}

/// `s` without leading and trailing white space.
pub open spec fn trimmed(s: Seq<char>) -> Seq<char> {
    trimmed_end(trimmed_start(s))
}

/// Text that neither starts nor ends with white space is its own trimmed form.
pub proof fn lemma_trimmed_fixpoint(s: Seq<char>)
    requires
        s.len() == 0 || (!is_space(s.first()) && !is_space(s.last())),
    ensures
        trimmed(s) == s,
{
}

/// Cuts leading and trailing white space.
pub fn trim(s: &str) -> (r: &str)
    ensures
        r@ == trimmed(s@),
{
    let chars = chars_of(s);
    let mut from: usize = 0;
    assert(s@.subrange(0, s@.len() as int) =~= s@);
    while from < chars.len() && space(chars[from])
        invariant
            chars@ == s@,
            from <= s@.len(),
            trimmed_start(s@) == trimmed_start(s@.subrange(from as int, s@.len() as int)),
        decreases s@.len() - from,
    {
        assert(s@.subrange(from as int, s@.len() as int).drop_first() =~= s@.subrange(
            from + 1,
            s@.len() as int,
        ));
        from += 1;
    }
    let ghost head = s@.subrange(from as int, s@.len() as int);
    assert(trimmed_start(s@) == head);
    let mut to: usize = chars.len();
    while from < to && space(chars[to - 1])
        invariant
            chars@ == s@,
            from <= to <= s@.len(),
            trimmed_end(head) == trimmed_end(s@.subrange(from as int, to as int)),
        decreases to,
    {
        assert(s@.subrange(from as int, to as int).drop_last() =~= s@.subrange(
            from as int,
            to - 1,
        ));
        to -= 1;
    }
    s.substring_char(from, to)
}

/// Whether `p` is how `s` begins.
pub open spec fn has_prefix(s: Seq<char>, p: Seq<char>) -> bool {
    p.len() <= s.len() && s.take(p.len() as int) == p
}

/// What follows the prefix `p` of `s`; nothing when `s` does not begin with `p`.
pub open spec fn without_prefix(s: Seq<char>, p: Seq<char>) -> Option<Seq<char>> {
    if has_prefix(s, p) {
        Some(s.skip(p.len() as int))
    } else {
        None
    }
}

/// A prefix in front of `s` is found there, and `s` is what follows it.
pub proof fn lemma_without_prefix(p: Seq<char>, s: Seq<char>)
    ensures
        without_prefix(p + s, p) == Some(s),
{
    assert((p + s).take(p.len() as int) =~= p);
    assert((p + s).skip(p.len() as int) =~= s);
}

/// Cuts the prefix `p`.
pub fn strip_prefix<'a>(s: &'a str, p: &str) -> (r: Option<&'a str>)
    ensures
        opt_str(r) == without_prefix(s@, p@),
{
    let n = p.unicode_len();
    let len = s.unicode_len();
    if n > len {
        return None;
    }
    let head = s.substring_char(0, n);
    assert(head@ == s@.take(n as int));
    if !text_eq(head, p) {
        return None;
    }
    let tail = s.substring_char(n, len);
    assert(tail@ == s@.skip(n as int));
    Some(tail)
}

/// Whether `p` stands in `s` at position `i`.
pub open spec fn occurs_at(s: Seq<char>, p: Seq<char>, i: int) -> bool {
    0 <= i && i + p.len() <= s.len() && s.subrange(i, i + p.len()) == p
}

/// The first position at or after `from` where `p` stands in `s`.
pub open spec fn find_from(s: Seq<char>, p: Seq<char>, from: nat) -> Option<int>
    decreases s.len() + 1 - from,
{
    if from + p.len() > s.len() {
        None
    } else if occurs_at(s, p, from as int) {
        Some(from as int)
    } else {
        find_from(s, p, from + 1)
    }
}

/// The first position where `p` stands in `s`.
pub open spec fn found(s: Seq<char>, p: Seq<char>) -> Option<int> {
    find_from(s, p, 0)
}

proof fn lemma_find_from(s: Seq<char>, p: Seq<char>, from: nat)
    ensures
        match find_from(s, p, from) {
            Some(i) => from <= i && occurs_at(s, p, i) && (forall|j: int|
                from <= j < i ==> !#[trigger] occurs_at(s, p, j)),
            None => forall|j: int| from <= j ==> !#[trigger] occurs_at(s, p, j),
        },
    decreases s.len() + 1 - from,
{
    if from + p.len() <= s.len() && !occurs_at(s, p, from as int) {
        lemma_find_from(s, p, from + 1);
    }
}

/// A search gives the least position where the pattern stands, and nothing when there is none.
pub proof fn lemma_found(s: Seq<char>, p: Seq<char>)
    ensures
        match found(s, p) {
            Some(i) => occurs_at(s, p, i) && (forall|j: int|
                0 <= j < i ==> !#[trigger] occurs_at(s, p, j)),
            None => forall|j: int| !#[trigger] occurs_at(s, p, j),
        },
{
    lemma_find_from(s, p, 0);
}

/// A position where the pattern stands, with none before it, is what a search gives.
pub proof fn lemma_found_is(s: Seq<char>, p: Seq<char>, i: int)
    requires
        occurs_at(s, p, i),
        forall|j: int| 0 <= j < i ==> !#[trigger] occurs_at(s, p, j),
    ensures
        found(s, p) == Some(i),
{
    lemma_found(s, p);
    if let Some(k) = found(s, p) {
        if k < i {
            assert(occurs_at(s, p, k));
        } else if i < k {
            assert(occurs_at(s, p, i));
        }
    }
}

/// Searches for `p`, from the front.
pub fn find(s: &str, p: &str) -> (r: Option<usize>)
    ensures
        match r {
            Some(i) => found(s@, p@) == Some(i as int),
            None => found(s@, p@) is None,
        },
{
    let n = p.unicode_len();
    let len = s.unicode_len();
    if n > len {
        return None;
    }
    let mut i: usize = 0;
    while i <= len - n
        invariant
            n == p@.len(),
            len == s@.len(),
            n <= len,
            i <= len - n + 1,
            found(s@, p@) == find_from(s@, p@, i as nat),
        decreases len - n + 1 - i,
    {
        let window = s.substring_char(i, i + n);
        if text_eq(window, p) {
            return Some(i);
        }
        if i == len - n {
            assert(find_from(s@, p@, (i + 1) as nat) is None);
            return None;
        }
        i += 1;
    }
    None
}

/// The text in front of the first colon, or all of it.
pub open spec fn before_colon(s: Seq<char>) -> Seq<char> {
    match found(s, seq![':']) {
        Some(i) => s.take(i),
        None => s,
    }
}

/// Cuts the text at its first colon.
pub fn first_segment(s: &str) -> (r: &str)
    ensures
        r@ == before_colon(s@),
{
    proof {
        reveal_strlit(":");
        assert(":"@ =~= seq![':']);
        lemma_found(s@, seq![':']);
    }
    match find(s, ":") {
        Some(i) => {
            let r = s.substring_char(0, i);
            assert(r@ == s@.take(i as int));
            r
        },
        None => s,
    }
}

/// The decimal digit `d`.
pub open spec fn digit(d: int) -> char {
    ('0' as int + d) as char
}

/// Whether `c` is one of the ten decimal digits.
pub open spec fn is_digit(c: char) -> bool {
    '0' as int <= c as int <= '9' as int
}

/// `n` in decimal digits, without leading zeros.
pub open spec fn decimal(n: nat) -> Seq<char>
    decreases n,
{
    if n < 10 {
        seq![digit(n as int)]
    } else {
        decimal(n / 10).push(digit((n % 10) as int))
    }
}

/// The number that decimal digits stand for.
pub open spec fn digits_value(s: Seq<char>) -> int
    decreases s.len(),
{
    if s.len() == 0 {
        0
    } else {
        10 * digits_value(s.drop_last()) + (s.last() as int - '0' as int)
    }
}

/// Whether `s` holds nothing but decimal digits.
pub open spec fn all_digits(s: Seq<char>) -> bool {
    forall|i: int| 0 <= i < s.len() ==> is_digit(#[trigger] s[i])
}

/// `s` without the plus sign that may stand in front of a number.
pub open spec fn without_plus(s: Seq<char>) -> Seq<char> {
    if s.len() > 0 && s.first() == '+' {
        s.drop_first()
    } else {
        s
    }
}

/// The number that `s` stands for: decimal digits, which a plus sign may precede, of a value of
/// at most `max`. Anything else is no number.
pub open spec fn parsed(s: Seq<char>, max: int) -> Option<int> {
    let digits = without_plus(s);
    if digits.len() > 0 && all_digits(digits) && digits_value(digits) <= max {
        Some(digits_value(digits))
    } else {
        None
    }
}

proof fn lemma_decimal(n: nat)
    ensures
        decimal(n).len() > 0,
        all_digits(decimal(n)),
        digits_value(decimal(n)) == n,
    decreases n,
{
    if n < 10 {
        let s = seq![digit(n as int)];
        assert(s.drop_last() =~= Seq::<char>::empty());
        assert(digits_value(s.drop_last()) == 0);
    } else {
        lemma_decimal(n / 10);
        let head = decimal(n / 10);
        let s = head.push(digit((n % 10) as int));
        assert(s.drop_last() =~= head);
        assert forall|i: int| 0 <= i < s.len() implies is_digit(#[trigger] s[i]) by {
            if i < head.len() {
                assert(s[i] == head[i]);
            }
        }
    }
}

/// A number written in decimal is read back as the same number.
pub proof fn lemma_parsed_decimal(n: nat, max: int)
    requires
        n <= max,
    ensures
        parsed(decimal(n), max) == Some(n as int),
{
    lemma_decimal(n);
    assert(is_digit(decimal(n)[0]));
}

/// A number is read from digits alone, with at most a plus sign in front of them, and is no greater
/// than allowed. So nothing is read from an empty text, nor from one that begins otherwise.
pub proof fn lemma_parsed_digits(s: Seq<char>, max: int)
    ensures
        parsed(s, max) matches Some(n) ==> {
            &&& s.len() > 0
            &&& 0 <= n <= max
            &&& s.first() == '+' || '0' as int <= s.first() as int <= '9' as int
            &&& forall|i: int|
                1 <= i < s.len() ==> '0' as int <= (#[trigger] s[i]) as int <= '9' as int
        },
{
    let digits = without_plus(s);
    if parsed(s, max) is Some {
        lemma_digits_value_grows(digits, 0);
        if s.first() == '+' {
            assert forall|i: int| 1 <= i < s.len() implies '0' as int <= (#[trigger] s[i]) as int
                <= '9' as int by {
                assert(is_digit(digits[i - 1]));
            }
        } else {
            assert(is_digit(digits[0]));
            assert forall|i: int| 1 <= i < s.len() implies '0' as int <= (#[trigger] s[i]) as int
                <= '9' as int by {
                assert(is_digit(digits[i]));
            }
        }
    }
}

/// A digit more makes a number ten times as great, and adds the digit to it.
pub proof fn lemma_parsed_grows(s: Seq<char>, d: int, max: int)
    requires
        0 <= d < 10,
        parsed(s, max) is Some,
        10 * parsed(s, max)->0 + d <= max,
    ensures
        parsed(s.push(digit(d)), max) == Some(10 * parsed(s, max)->0 + d),
        parsed(seq!['+'] + s, max) == if s.first() == '+' {
            None
        } else {
            parsed(s, max)
        },
{
    let more = s.push(digit(d));
    let digits = without_plus(s);
    assert(without_plus(more) =~= digits.push(digit(d)));
    assert(digits.push(digit(d)).drop_last() =~= digits);
    assert forall|i: int| 0 <= i < digits.len() + 1 implies is_digit(
        #[trigger] digits.push(digit(d))[i],
    ) by {
        if i < digits.len() {
            assert(is_digit(digits[i]));
        }
    }
    let signed = seq!['+'] + s;
    assert(without_plus(signed) =~= s);
    if s.first() == '+' {
        assert(!is_digit(s[0]));
    }
}

/// Trimming cuts white space at both ends and nothing else: what is left neither begins nor ends
/// with white space, and stands in the text with nothing but white space around it.
pub proof fn lemma_trimmed(s: Seq<char>)
    ensures
        trimmed(s).len() > 0 ==> !is_space(trimmed(s).first()) && !is_space(trimmed(s).last()),
        exists|a: int, b: int|
            0 <= a <= b <= s.len() && trimmed(s) == #[trigger] s.subrange(a, b) && (forall|i: int|
                0 <= i < a || b <= i < s.len() ==> is_space(#[trigger] s[i])),
{
    lemma_trimmed_start(s);
    let t = trimmed_start(s);
    lemma_trimmed_end(t);
    let a = choose|a: int|
        0 <= a <= s.len() && t == #[trigger] s.skip(a) && (forall|i: int|
            0 <= i < a ==> is_space(#[trigger] s[i]));
    let n = choose|n: int|
        0 <= n <= t.len() && trimmed_end(t) == #[trigger] t.take(n) && (forall|i: int|
            n <= i < t.len() ==> is_space(#[trigger] t[i]));
    let b = a + n;
    assert(trimmed(s) =~= s.subrange(a, b));
    assert forall|i: int| 0 <= i < a || b <= i < s.len() implies is_space(#[trigger] s[i]) by {
        if i >= b {
            assert(s[i] == t[i - a]);
        }
    }
    if trimmed(s).len() > 0 {
        assert(trimmed(s).first() == t.first());
    }
}

proof fn lemma_trimmed_start(s: Seq<char>)
    ensures
        trimmed_start(s).len() > 0 ==> !is_space(trimmed_start(s).first()),
        exists|a: int|
            0 <= a <= s.len() && trimmed_start(s) == #[trigger] s.skip(a) && (forall|i: int|
                0 <= i < a ==> is_space(#[trigger] s[i])),
    decreases s.len(),
{
    if s.len() > 0 && is_space(s.first()) {
        let rest = s.drop_first();
        lemma_trimmed_start(rest);
        let a = choose|a: int|
            0 <= a <= rest.len() && trimmed_start(rest) == #[trigger] rest.skip(a) && (forall|
                i: int,
            |
                0 <= i < a ==> is_space(#[trigger] rest[i]));
        assert(rest.skip(a) =~= s.skip(a + 1));
        assert forall|i: int| 0 <= i < a + 1 implies is_space(#[trigger] s[i]) by {
            if i > 0 {
                assert(s[i] == rest[i - 1]);
            }
        }
    } else {
        assert(s.skip(0) =~= s);
    }
}

proof fn lemma_trimmed_end(s: Seq<char>)
    ensures
        trimmed_end(s).len() > 0 ==> !is_space(trimmed_end(s).last()),
        exists|n: int|
            0 <= n <= s.len() && trimmed_end(s) == #[trigger] s.take(n) && (forall|i: int|
                n <= i < s.len() ==> is_space(#[trigger] s[i])),
    decreases s.len(),
{
    if s.len() > 0 && is_space(s.last()) {
        let front = s.drop_last();
        lemma_trimmed_end(front);
        let n = choose|n: int|
            0 <= n <= front.len() && trimmed_end(front) == #[trigger] front.take(n) && (forall|
                i: int,
            |
                n <= i < front.len() ==> is_space(#[trigger] front[i]));
        assert(front.take(n) =~= s.take(n));
        assert forall|i: int| n <= i < s.len() implies is_space(#[trigger] s[i]) by {
            if i < front.len() {
                assert(s[i] == front[i]);
            }
        }
    } else {
        assert(s.take(s.len() as int) =~= s);
    }
}

/// The text in front of the first colon holds no colon, and a colon follows it unless it is the
/// whole text.
pub proof fn lemma_before_colon(s: Seq<char>)
    ensures
        !before_colon(s).contains(':'),
        before_colon(s) == s || (before_colon(s) + seq![':']).is_prefix_of(s),
{
    let colon = seq![':'];
    lemma_found(s, colon);
    let r = before_colon(s);
    assert forall|k: int| 0 <= k < r.len() implies r[k] != ':' by {
        if r[k] == ':' {
            assert(s.subrange(k, k + 1) =~= colon);
            assert(occurs_at(s, colon, k));
        }
    }
    if let Some(i) = found(s, colon) {
        assert(s.subrange(i, i + 1)[0] == ':');
        assert(r + colon =~= s.take(i + 1));
    }
}

/// A decimal form has no space around it.
pub proof fn lemma_decimal_is_trimmed(n: nat)
    ensures
        trimmed(decimal(n)) == decimal(n),
{
    lemma_decimal(n);
    let s = decimal(n);
    assert(is_digit(s.first()));
    assert(is_digit(s.last()));
    lemma_trimmed_fixpoint(s);
}

/// Decimal digits hold no colon.
pub proof fn lemma_decimal_has_no_colon(n: nat)
    ensures
        forall|i: int| 0 <= i < decimal(n).len() ==> #[trigger] decimal(n)[i] != ':',
{
    lemma_decimal(n);
    assert forall|i: int| 0 <= i < decimal(n).len() implies #[trigger] decimal(n)[i] != ':' by {
        assert(is_digit(decimal(n)[i]));
    }
}

proof fn lemma_digits_value_grows(s: Seq<char>, i: int)
    requires
        0 <= i <= s.len(),
        all_digits(s),
    ensures
        0 <= digits_value(s.take(i)) <= digits_value(s),
    decreases s.len(),
{
    if s.len() == 0 {
        assert(s.take(i) =~= s);
    } else {
        let t = s.drop_last();
        assert forall|k: int| 0 <= k < t.len() implies is_digit(#[trigger] t[k]) by {
            assert(t[k] == s[k]);
        }
        assert(is_digit(s[s.len() - 1]));
        if i == s.len() {
            assert(s.take(i) =~= s);
            lemma_digits_value_grows(t, t.len() as int);
            assert(t.take(t.len() as int) =~= t);
        } else {
            lemma_digits_value_grows(t, i);
            assert(t.take(i) =~= s.take(i));
        }
    }
}

fn digit_text(d: u64) -> (r: &'static str)
    requires
        d < 10,
    ensures
        r@ == seq![digit(d as int)],
{
    proof {
        reveal_strlit("0");
        reveal_strlit("1");
        reveal_strlit("2");
        reveal_strlit("3");
        reveal_strlit("4");
        reveal_strlit("5");
        reveal_strlit("6");
        reveal_strlit("7");
        reveal_strlit("8");
        reveal_strlit("9");
    }
    let r = match d {
        0 => "0",
        1 => "1",
        2 => "2",
        3 => "3",
        4 => "4",
        5 => "5",
        6 => "6",
        7 => "7",
        8 => "8",
        _ => "9",
    };
    assert(r@ =~= seq![digit(d as int)]);
    r
}

/// `n` in decimal digits.
pub fn to_decimal(n: u64) -> (r: String)
    ensures
        r@ == decimal(n as nat),
    decreases n,
{
    if n < 10 {
        let r = digit_text(n).to_owned();
        r
    } else {
        let mut r = to_decimal(n / 10);
        let ghost head = r@;
        r.append(digit_text(n % 10));
        assert(r@ =~= head.push(digit((n % 10) as int)));
        r
    }
}

/// Reads a decimal number of at most `max`.
fn parse_up_to(s: &str, max: u64) -> (r: Option<u64>)
    ensures
        match r {
            Some(n) => parsed(s@, max as int) == Some(n as int),
            None => parsed(s@, max as int) is None,
        },
{
    let chars = chars_of(s);
    let start: usize = if chars.len() > 0 && chars[0] == '+' {
        1
    } else {
        0
    };
    if start == chars.len() {
        return None;
    }
    let ghost digits = without_plus(s@);
    assert(digits =~= s@.skip(start as int));
    let mut value: u64 = 0;
    let mut i: usize = start;
    assert(digits.take(0) =~= Seq::<char>::empty());
    while i < chars.len()
        invariant
            chars@ == s@,
            start <= i <= s@.len(),
            start < s@.len(),
            digits == s@.skip(start as int),
            digits == without_plus(s@),
            forall|k: int| 0 <= k < i - start ==> is_digit(#[trigger] digits[k]),
            value <= max,
            value == digits_value(digits.take(i - start)),
        decreases s@.len() - i,
    {
        let c = chars[i];
        assert(digits[i - start] == c);
        let code: u32 = code_point(c);
        if code < 48 || code > 57 {
            assert(!is_digit(digits[i - start]));
            return None;
        }
        let step: u64 = (code - 48) as u64;
        let next: u128 = 10 * (value as u128) + (step as u128);
        assert(digits.take(i - start + 1).drop_last() =~= digits.take(i - start));
        assert(next == digits_value(digits.take(i - start + 1)));
        if next > max as u128 {
            proof {
                if all_digits(digits) {
                    lemma_digits_value_grows(digits, i - start + 1);
                }
            }
            return None;
        }
        value = next as u64;
        i += 1;
    }
    assert(digits.take(digits.len() as int) =~= digits);
    Some(value)
}

/// The 64-bit unsigned number that `s` stands for.
pub open spec fn parsed_u64(s: Seq<char>) -> Option<u64> {
    match parsed(s, u64::MAX as int) {
        Some(n) => Some(n as u64),
        None => None,
    }
}

/// The 32-bit unsigned number that `s` stands for.
pub open spec fn parsed_u32(s: Seq<char>) -> Option<u32> {
    match parsed(s, u32::MAX as int) {
        Some(n) => Some(n as u32),
        None => None,
    }
}

/// Reads a 64-bit unsigned number.
pub fn parse_u64(s: &str) -> (r: Option<u64>)
    ensures
        r == parsed_u64(s@),
{
    parse_up_to(s, u64::MAX)
}

/// Reads a 32-bit unsigned number.
pub fn parse_u32(s: &str) -> (r: Option<u32>)
    ensures
        r == parsed_u32(s@),
{
    match parse_up_to(s, u32::MAX as u64) {
        Some(n) => Some(n as u32),
        None => None,
    }
}

/// The ASCII lower-case form of `c`; other characters stay as they are.
pub open spec fn ascii_lower(c: char) -> char {
    if 'A' as int <= c as int <= 'Z' as int {
        (c as int + 32) as char
    } else {
        c
    }
}

/// Whether a piece of text holds ASCII characters alone.
pub open spec fn is_ascii(s: Seq<char>) -> bool {
    forall|i: int| 0 <= i < s.len() ==> (#[trigger] s[i]) as int <= 127
}

/// A piece of text with its ASCII letters in lower case.
pub open spec fn ascii_lowered(s: Seq<char>) -> Seq<char> {
    s.map_values(|c: char| ascii_lower(c))
}

/// Whether two pieces of text differ at most in the case of ASCII letters.
pub open spec fn same_ignoring_ascii_case(a: Seq<char>, b: Seq<char>) -> bool {
    a.len() == b.len() && forall|i: int|
        0 <= i < a.len() ==> ascii_lower(#[trigger] a[i]) == ascii_lower(b[i])
}

fn lower_code(c: char) -> (r: u32)
    ensures
        r == ascii_lower(c) as int,
{
    let n: u32 = code_point(c);
    if 65 <= n && n <= 90 {
        n + 32
    } else {
        n
    }
}

/// Compares two pieces of text without regard to the case of ASCII letters.
pub fn eq_ignore_ascii_case(a: &str, b: &str) -> (r: bool)
    ensures
        r == same_ignoring_ascii_case(a@, b@),
{
    let x = chars_of(a);
    let y = chars_of(b);
    if x.len() != y.len() {
        return false;
    }
    let mut i: usize = 0;
    while i < x.len()
        invariant
            x@ == a@,
            y@ == b@,
            x@.len() == y@.len(),
            i <= x@.len(),
            forall|k: int| 0 <= k < i ==> ascii_lower(#[trigger] a@[k]) == ascii_lower(b@[k]),
        decreases x@.len() - i,
    {
        if lower_code(x[i]) != lower_code(y[i]) {
            assert(ascii_lower(a@[i as int]) != ascii_lower(b@[i as int]));
            return false;
        }
        i += 1;
    }
    true
}

/// Whether `a` stands before `b` in the order of their code points.
pub open spec fn text_before(a: Seq<char>, b: Seq<char>) -> bool
    decreases a.len(),
{
    if b.len() == 0 {
        false
    } else if a.len() == 0 {
        true
    } else if a.first() != b.first() {
        (a.first() as int) < (b.first() as int)
    } else {
        text_before(a.drop_first(), b.drop_first())
    }
}

/// Of two pieces of text the one that has the smaller code point where they first differ stands
/// before the other, and a piece of text stands before a longer one that begins with it.
pub proof fn lemma_first_difference_decides(
    front: Seq<char>,
    a: char,
    b: char,
    rest: Seq<char>,
    other: Seq<char>,
)
    ensures
        a as int <= b as int && a != b ==> text_before(
            front.push(a) + rest,
            front.push(b) + other,
        ) && !text_before(front.push(b) + other, front.push(a) + rest),
        text_before(front, front.push(a) + rest),
    decreases front.len(),
{
    let x = front.push(a) + rest;
    let y = front.push(b) + other;
    if front.len() > 0 {
        let tail = front.drop_first();
        lemma_first_difference_decides(tail, a, b, rest, other);
        assert(x.drop_first() =~= tail.push(a) + rest);
        assert(y.drop_first() =~= tail.push(b) + other);
        assert(x.first() == front.first() && y.first() == front.first());
    } else {
        assert(x.first() == a && y.first() == b);
    }
}

/// The order of text is transitive.
pub proof fn lemma_text_before_transitive(a: Seq<char>, b: Seq<char>, c: Seq<char>)
    requires
        text_before(a, b),
        text_before(b, c),
    ensures
        text_before(a, c),
    decreases a.len(),
{
    if a.len() > 0 && a.first() == b.first() && b.first() == c.first() {
        lemma_text_before_transitive(a.drop_first(), b.drop_first(), c.drop_first());
    }
}

/// Of two pieces of text exactly one stands before the other, or they are the same.
pub proof fn lemma_text_before_total(a: Seq<char>, b: Seq<char>)
    ensures
        a == b ==> !text_before(a, b) && !text_before(b, a),
        a != b ==> text_before(a, b) != text_before(b, a),
    decreases a.len(),
{
    if a.len() > 0 && b.len() > 0 && a.first() == b.first() {
        lemma_text_before_total(a.drop_first(), b.drop_first());
        if a.drop_first() == b.drop_first() {
            assert(a =~= seq![a.first()] + a.drop_first());
            assert(b =~= seq![b.first()] + b.drop_first());
        }
    } else if a.len() == 0 && b.len() == 0 {
        assert(a =~= b);
    }
}

/// Compares two pieces of text in the order of their code points.
pub fn is_before(a: &str, b: &str) -> (r: bool)
    ensures
        r == text_before(a@, b@),
{
    let x = chars_of(a);
    let y = chars_of(b);
    let mut i: usize = 0;
    assert(a@.skip(0) =~= a@);
    assert(b@.skip(0) =~= b@);
    while i < x.len() && i < y.len()
        invariant
            x@ == a@,
            y@ == b@,
            i <= x@.len(),
            i <= y@.len(),
            text_before(a@, b@) == text_before(a@.skip(i as int), b@.skip(i as int)),
        decreases x@.len() - i,
    {
        assert(a@.skip(i as int).drop_first() =~= a@.skip(i + 1));
        assert(b@.skip(i as int).drop_first() =~= b@.skip(i + 1));
        if x[i] != y[i] {
            return code_point(x[i]) < code_point(y[i]);
        }
        i += 1;
    }
    i < y.len()
}

/// A single digit stands for its own value.
pub proof fn lemma_single_digit(d: int, max: int)
    requires
        0 <= d < 10,
    ensures
        digit(d) as int == '0' as int + d,
        parsed(seq![digit(d)], max) == if d <= max {
            Some(d)
        } else {
            None
        },
{
    let s = seq![digit(d)];
    assert(s.drop_last() =~= Seq::<char>::empty());
    assert(digits_value(s.drop_last()) == 0);
}

/// A number that grows beyond what is allowed is no number any more, and nothing but a digit can be
/// added to a number.
pub proof fn lemma_parsed_is_bounded(s: Seq<char>, c: char, max: int)
    requires
        parsed(s, max) is Some,
    ensures
        !('0' as int <= c as int <= '9' as int) ==> parsed(s.push(c), max) is None,
        '0' as int <= c as int <= '9' as int && 10 * parsed(s, max)->0 + (c as int - '0' as int)
            > max ==> parsed(s.push(c), max) is None,
{
    let more = s.push(c);
    let digits = without_plus(s);
    assert(without_plus(more) =~= digits.push(c));
    assert(digits.push(c).drop_last() =~= digits);
    assert(digits.push(c)[digits.len() as int] == c);
}

/// A number is written digit by digit, the highest first, without leading zeros.
pub proof fn lemma_decimal_digits(n: nat, d: nat)
    requires
        d < 10,
    ensures
        decimal(d) == seq![digit(d as int)],
        n > 0 ==> decimal(10 * n + d) == decimal(n).push(digit(d as int)),
{
    if n > 0 {
        assert((10 * n + d) / 10 == n);
        assert((10 * n + d) % 10 == d);
    }
}

/// A prefix is cut when and only when the text is the prefix with something behind it.
pub proof fn lemma_prefix_and_rest(s: Seq<char>, p: Seq<char>, rest: Seq<char>)
    ensures
        without_prefix(s, p) == Some(rest) <==> s == p + rest,
        without_prefix(s, p) is None <==> !p.is_prefix_of(s),
{
    if s == p + rest {
        lemma_without_prefix(p, rest);
    }
    if without_prefix(s, p) == Some(rest) {
        assert(s =~= p + rest);
    }
    if p.is_prefix_of(s) {
        assert(s.take(p.len() as int) =~= p);
    }
    if has_prefix(s, p) {
        assert(s.take(p.len() as int) =~= s.subrange(0, p.len() as int));
    }
}

/// Two pieces of text are the same but for the case of ASCII letters exactly when they have the
/// same length and at each place the same character, or a letter once in upper and once in lower
/// case.
pub proof fn lemma_case_is_ignored(a: Seq<char>, b: Seq<char>)
    ensures
        same_ignoring_ascii_case(a, b) <==> a.len() == b.len() && forall|i: int|
            0 <= i < a.len() ==> {
                ||| #[trigger] a[i] == b[i]
                ||| 'A' as int <= a[i] as int <= 'Z' as int && b[i] as int == a[i] as int + 32
                ||| 'A' as int <= b[i] as int <= 'Z' as int && a[i] as int == b[i] as int + 32
            },
{
    assert forall|c: char| 'A' as int <= c as int <= 'Z' as int implies #[trigger] ascii_lower(
        c,
    ) as int == c as int + 32 by {
    }
    if same_ignoring_ascii_case(a, b) {
        assert forall|i: int| 0 <= i < a.len() implies {
            ||| #[trigger] a[i] == b[i]
            ||| 'A' as int <= a[i] as int <= 'Z' as int && b[i] as int == a[i] as int + 32
            ||| 'A' as int <= b[i] as int <= 'Z' as int && a[i] as int == b[i] as int + 32
        } by {
            assert(ascii_lower(a[i]) == ascii_lower(b[i]));
        }
    }
}

/// Of the ASCII characters the blank and the five controls from tab to carriage return are white
/// space, and no others are.
pub proof fn lemma_ascii_spaces(c: char)
    requires
        c as int <= 127,
    ensures
        is_space(c) <==> c == ' ' || '\t' as int <= c as int <= '\r' as int,
{
}

} // verus!
