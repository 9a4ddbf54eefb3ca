//! Text helpers: decimal numbers, trimming, prefixes and substrings.

use vstd::prelude::*;

verus! {

/// The decimal digit `d`, for `d < 10`.
pub open spec fn digit_char(d: nat) -> char {
    (('0' as nat) + d) as char
}

/// The shortest decimal numeral of `n`.
pub open spec fn decimal(n: nat) -> Seq<char>
    decreases n,
{
    if n < 10 {
        seq![digit_char(n)]
    } else {
        decimal(n / 10).push(digit_char(n % 10))
    }
}

fn push_digit(out: &mut String, d: u64)
    requires
        d < 10,
    ensures
        final(out)@ == old(out)@.push(digit_char(d as nat)),
{
    proof {
        reveal_strlit("0");
        reveal_strlit("1");
        reveal_strlit("2");
        reveal_strlit("3");
        reveal_strlit("4");
        reveal_strlit("5");
        reveal_strlit("6");
        reveal_strlit("7");
        reveal_strlit("8");
        reveal_strlit("9");
    }
    let digit: &str = match d {
        0 => "0",
        1 => "1",
        2 => "2",
        3 => "3",
        4 => "4",
        5 => "5",
        6 => "6",
        7 => "7",
        8 => "8",
        _ => "9",
    };
    out.append(digit);
    assert(digit@ =~= seq![digit_char(d as nat)]);
}

/// Writes `n` in decimal.
pub fn decimal_text(n: u64) -> (r: String)
    ensures
        r@ == decimal(n as nat),
    decreases n,
{
    if n < 10 {
        let mut out = String::new();
        push_digit(&mut out, n);
        out
    } else {
        let mut out = decimal_text(n / 10);
        push_digit(&mut out, n % 10);
        out
    }
}

/// A Unicode `White_Space` character.
pub open spec fn white_space(c: char) -> bool {
    ||| '\u{9}' <= c <= '\u{d}'
    ||| c == '\u{20}'
    ||| c == '\u{85}'
    ||| c == '\u{a0}'
    ||| c == '\u{1680}'
    ||| '\u{2000}' <= c <= '\u{200a}'
    ||| c == '\u{2028}'
    ||| c == '\u{2029}'
    ||| c == '\u{202f}'
    ||| c == '\u{205f}'
    ||| c == '\u{3000}'
}

/// `s` without its leading white space.
pub open spec fn trim_front(s: Seq<char>) -> Seq<char>
    decreases s.len(),
{
    if s.len() > 0 && white_space(s.first()) {
        trim_front(s.drop_first())
    } else {
        s
    }
}

/// `s` without its trailing white space.
pub open spec fn trim_back(s: Seq<char>) -> Seq<char>
    decreases s.len(),
{
    if s.len() > 0 && white_space(s.last()) {
        trim_back(s.drop_last())
    } else {
        s
    }
}

/// `s` without its leading and trailing white space.
pub open spec fn trim(s: Seq<char>) -> Seq<char> {
    trim_back(trim_front(s))
}

/// An ASCII decimal digit.
pub open spec fn is_digit(c: char) -> bool {
    '0' <= c <= '9'
}

/// Every character of `s` is an ASCII decimal digit.
pub open spec fn all_digits(s: Seq<char>) -> bool {
    forall|i: int| 0 <= i < s.len() ==> is_digit(#[trigger] s[i])
}

/// The number that a string of decimal digits denotes.
pub open spec fn digits_value(s: Seq<char>) -> nat
    decreases s.len(),
{
    if s.len() == 0 {
        0
    } else {
        digits_value(s.drop_last()) * 10 + (s.last() as nat - '0' as nat) as nat
    }
}

/// `s` without one leading `+`.
pub open spec fn unsigned_body(s: Seq<char>) -> Seq<char> {
    if s.len() > 0 && s.first() == '+' {
        s.drop_first()
    } else {
        s
    }
}

/// The `u32` that `s` denotes: digits, at least one, after an optional `+`,
/// whose value fits.
pub open spec fn parsed_u32(s: Seq<char>) -> Option<u32> {
    let body = unsigned_body(s);
    if body.len() > 0 && all_digits(body) && digits_value(body) <= u32::MAX {
        Some(digits_value(body) as u32)
    } else {
        None
    }
}

/// `needle` occurs in `hay` as a run of consecutive characters.
pub open spec fn contains_text(hay: Seq<char>, needle: Seq<char>) -> bool {
    exists|i: int| #[trigger] occurs_at(hay, needle, i)
}

/// `needle` stands in `hay` from position `i` on.
pub open spec fn occurs_at(hay: Seq<char>, needle: Seq<char>, i: int) -> bool {
    0 <= i <= hay.len() - needle.len() && hay.subrange(i, i + needle.len()) == needle
}

/// `s` begins with `prefix`.
pub open spec fn starts_with(s: Seq<char>, prefix: Seq<char>) -> bool {
    prefix.len() <= s.len() && s.take(prefix.len() as int) == prefix
}

/// The characters of a string, one by one.
pub fn chars_of(s: &str) -> (r: Vec<char>)
    ensures
        r@ == s@,
{
    let mut out: Vec<char> = Vec::new();
    for c in it: s.chars()
        invariant
            it.seq() == s@,
            out@ == s@.take(it.index() as int),
    {
        out.push(c);
        assert(s@.take(it.index() as int + 1) =~= s@.take(it.index() as int).push(c));
    }
    assert(s@.take(s@.len() as int) =~= s@);
    out
}

/// Whether two strings hold the same characters.
pub fn same_text(a: &str, b: &str) -> (r: bool)
    ensures
        r == (a@ == b@),
{
    let x = chars_of(a);
    let y = chars_of(b);
    if x.len() != y.len() {
        return false;
    }
    matches_at(&x, &y, 0)
}

/// Whether `needle` stands in `hay` from position `at` on.
fn matches_at(hay: &Vec<char>, needle: &Vec<char>, at: usize) -> (r: bool)
    requires
        at + needle@.len() <= hay@.len(),
    ensures
        r == occurs_at(hay@, needle@, at as int),
        at == 0 && hay@.len() == needle@.len() ==> r == (hay@ == needle@),
{
    let total: usize = hay.len();
    let mut k: usize = 0;
    while k < needle.len()
        invariant
            k <= needle@.len(),
            total == hay@.len(),
            at + needle@.len() <= total,
            forall|j: int| 0 <= j < k ==> hay@[at + j] == #[trigger] needle@[j],
        decreases needle@.len() - k,
    {
        if hay[at + k] != needle[k] {
            proof {
                let window = hay@.subrange(at as int, at + needle@.len());
                assert(window[k as int] != needle@[k as int]);
            }
            return false;
        }
        k += 1;
    }
    assert(hay@.subrange(at as int, at + needle@.len()) =~= needle@);
    proof {
        if at == 0 && hay@.len() == needle@.len() {
            assert(hay@ =~= needle@);
        }
    }
    true
}

/// Whether `needle` occurs in `hay`.
pub fn contains(hay: &str, needle: &str) -> (r: bool)
    ensures
        r == contains_text(hay@, needle@),
{
    let h = chars_of(hay);
    let n = chars_of(needle);
    if n.len() > h.len() {
        return false;
    }
    let last: usize = h.len() - n.len();
    let mut i: usize = 0;
    while i <= last
        invariant
            i <= last + 1,
            last == h@.len() - n@.len(),
            h@ == hay@,
            n@ == needle@,
            forall|j: int| 0 <= j < i ==> !occurs_at(hay@, needle@, j),
        decreases last + 1 - i,
    {
        if matches_at(&h, &n, i) {
            return true;
        }
        if i == last {
            return false;
        }
        i += 1;
    }
    false
}

/// What follows `prefix` in `s`, if `s` begins with it.
pub fn strip_prefix<'a>(s: &'a str, prefix: &str) -> (r: Option<&'a str>)
    ensures
        r is Some <==> starts_with(s@, prefix@),
        r matches Some(rest) ==> rest@ == s@.skip(prefix@.len() as int),
{
    let chars = chars_of(s);
    let head = chars_of(prefix);
    if head.len() > chars.len() {
        return None;
    }
    if matches_at(&chars, &head, 0) {
        assert(s@.take(prefix@.len() as int) =~= s@.subrange(0, prefix@.len() as int));
        assert(s@.skip(prefix@.len() as int) =~= s@.subrange(
            prefix@.len() as int,
            s@.len() as int,
        ));
        Some(s.substring_char(head.len(), chars.len()))
    } else {
        assert(s@.take(prefix@.len() as int) =~= s@.subrange(0, prefix@.len() as int));
        None
    }
}

/// Whether `c` is white space.
pub fn is_white_space(c: char) -> (r: bool)
    ensures
        r == white_space(c),
{
    (c >= '\u{9}' && c <= '\u{d}') || c == '\u{20}' || c == '\u{85}' || c == '\u{a0}'
        || c == '\u{1680}' || (c >= '\u{2000}' && c <= '\u{200a}') || c == '\u{2028}'
        || c == '\u{2029}' || c == '\u{202f}' || c == '\u{205f}' || c == '\u{3000}'
}

/// The characters of `s` without leading and trailing white space.
pub fn trimmed_chars(s: &str) -> (r: Vec<char>)
    ensures
        r@ == trim(s@),
{
    let chars = chars_of(s);
    let mut start: usize = 0;
    assert(s@.skip(0) =~= s@);
    while start < chars.len() && is_white_space(chars[start])
        invariant
            start <= chars@.len(),
            chars@ == s@,
            trim_front(s@) == trim_front(s@.skip(start as int)),
        decreases chars@.len() - start,
    {
        assert(s@.skip(start as int).drop_first() =~= s@.skip(start as int + 1));
        start += 1;
    }
    let ghost front = s@.skip(start as int);
    let mut end: usize = chars.len();
    assert(s@.subrange(start as int, end as int) =~= front);
    while end > start && is_white_space(chars[end - 1])
        invariant
            start <= end <= chars@.len(),
            chars@ == s@,
            trim_back(front) == trim_back(s@.subrange(start as int, end as int)),
        decreases end,
    {
        assert(s@.subrange(start as int, end as int).drop_last() =~= s@.subrange(
            start as int,
            end as int - 1,
        ));
        end -= 1;
    }
    let mut out: Vec<char> = Vec::new();
    let mut i: usize = start;
    while i < end
        invariant
            start <= i <= end <= chars@.len(),
            chars@ == s@,
            out@ == s@.subrange(start as int, i as int),
        decreases end - i,
    {
        out.push(chars[i]);
        assert(s@.subrange(start as int, i as int + 1) =~= s@.subrange(
            start as int,
            i as int,
        ).push(s@[i as int]));
        i += 1;
    }
    out
}

/// Reads a `u32` in decimal.
pub fn parse_u32(chars: &Vec<char>) -> (r: Option<u32>)
    ensures
        r == parsed_u32(chars@),
{
    let skip: usize = if chars.len() > 0 && chars[0] == '+' {
        1
    } else {
        0
    };
    let ghost body = unsigned_body(chars@);
    assert(body =~= chars@.skip(skip as int));
    if chars.len() == skip {
        return None;
    }
    let mut i: usize = skip;
    let mut value: u64 = 0;
    assert(body.take(0) =~= Seq::<char>::empty());
    while i < chars.len()
        invariant
            skip <= i <= chars@.len(),
            skip <= 1,
            body == unsigned_body(chars@),
            body == chars@.skip(skip as int),
            forall|j: int| 0 <= j < i - skip ==> is_digit(#[trigger] body[j]),
            value == digits_value(body.take(i - skip)),
            value <= u32::MAX,
        decreases chars@.len() - i,
    {
        let c = chars[i];
        let ghost at: int = i - skip;
        assert(c == body[at]);
        if c < '0' || c > '9' {
            assert(!is_digit(body[at]));
            return None;
        }
        let digit: u64 = c as u64 - '0' as u64;
        assert(body.take(at + 1).drop_last() =~= body.take(at));
        value = value * 10 + digit;
        if value > u32::MAX as u64 {
            proof {
                lemma_digits_value_grows(body, at + 1);
            }
            return None;
        }
        i += 1;
    }
    assert(body.take(body.len() as int) =~= body);
    Some(value as u32)
}

/// A longer run of digits denotes no smaller number.
proof fn lemma_digits_value_grows(s: Seq<char>, k: int)
    requires
        0 <= k <= s.len(),
    ensures
        digits_value(s.take(k)) <= digits_value(s),
    decreases s.len() - k,
{
    if k < s.len() {
        assert(s.take(k + 1).drop_last() =~= s.take(k));
        lemma_digits_value_grows(s, k + 1);
    } else {
        assert(s.take(k) =~= s);
    }
}

/// A numeral is a nonempty run of digits that denotes its number.
pub proof fn lemma_decimal_digits(n: nat)
    ensures
        decimal(n).len() > 0,
        all_digits(decimal(n)),
        digits_value(decimal(n)) == n,
    decreases n,
{
    if n < 10 {
        let s = seq![digit_char(n)];
        reveal_with_fuel(digits_value, 2);
        assert(s.drop_last() =~= Seq::<char>::empty());
    } else {
        lemma_decimal_digits(n / 10);
        assert(decimal(n).drop_last() =~= decimal(n / 10));
    }
}

/// Reading back a written number gives that number.
pub proof fn law_decimal_round_trip(n: u32)
    ensures
        parsed_u32(trim(decimal(n as nat))) == Some(n),
{
    lemma_decimal_digits(n as nat);
    let s = decimal(n as nat);
    assert(is_digit(s[0]));
    assert(is_digit(s[s.len() - 1]));
}

/// Different numbers have different numerals.
pub proof fn law_decimal_injective(a: nat, b: nat)
    requires
        decimal(a) == decimal(b),
    ensures
        a == b,
{
    lemma_decimal_digits(a);
    lemma_decimal_digits(b);
}

/// A numeral is built digit by digit: one digit stands for itself, and appending a
/// digit to a numeral makes ten times the number and that digit of it.
pub proof fn law_decimal_by_digits(n: nat, d: nat)
    requires
        d < 10,
    ensures
        decimal(d).len() == 1,
        decimal(d)[0] as nat == '0' as nat + d,
        n > 0 ==> decimal(10 * n + d) == decimal(n) + decimal(d),
{
    if n > 0 {
        assert(decimal(10 * n + d) =~= decimal(n) + decimal(d));
    }
}

/// White space is what Unicode calls so.
pub proof fn law_white_space_is_unicode(c: char)
    ensures
        white_space(c) <==> {
            let code = c as u32;
            ||| 9 <= code <= 13
            ||| code == 32
            ||| code == 133
            ||| code == 160
            ||| code == 5760
            ||| 8192 <= code <= 8202
            ||| code == 8232
            ||| code == 8233
            ||| code == 8239
            ||| code == 8287
            ||| code == 12288
        },
{
}

/// Every character of `s` is white space.
pub open spec fn blank(s: Seq<char>) -> bool {
    forall|i: int| 0 <= i < s.len() ==> white_space(#[trigger] s[i])
}

/// Trimming drops white space at both ends, all of it, and nothing else.
pub proof fn law_trim_drops_blank_ends(s: Seq<char>)
    ensures
        exists|front: Seq<char>, back: Seq<char>|
            blank(front) && blank(back) && s == #[trigger] (front + trim(s) + back),
        trim(s).len() > 0 ==> !white_space(trim(s)[0]) && !white_space(trim(s).last()),
{
    let t = trim_front(s);
    lemma_trim_front(s);
    lemma_trim_back(t);
    let front = choose|front: Seq<char>| blank(front) && s == #[trigger] (front + t);
    let back = choose|back: Seq<char>| blank(back) && t == #[trigger] (trim(s) + back);
    assert(s =~= front + trim(s) + back);
    if trim(s).len() > 0 {
        assert(trim(s)[0] == t[0]);
    }
}

proof fn lemma_trim_front(s: Seq<char>)
    ensures
        exists|front: Seq<char>| blank(front) && s == #[trigger] (front + trim_front(s)),
        trim_front(s).len() > 0 ==> !white_space(trim_front(s)[0]),
    decreases s.len(),
{
    if s.len() > 0 && white_space(s.first()) {
        lemma_trim_front(s.drop_first());
        let rest = choose|front: Seq<char>|
            blank(front) && s.drop_first() == #[trigger] (front + trim_front(s.drop_first()));
        let front = seq![s[0]] + rest;
        assert forall|i: int| 0 <= i < front.len() implies white_space(#[trigger] front[i]) by {
            if i > 0 {
                assert(front[i] == rest[i - 1]);
            }
        }
        assert(s =~= seq![s[0]] + s.drop_first());
        assert(trim_front(s) == trim_front(s.drop_first()));
        assert(seq![s[0]] + (rest + trim_front(s)) =~= front + trim_front(s));
    } else {
        assert(s =~= Seq::<char>::empty() + trim_front(s));
    }
}

proof fn lemma_trim_back(s: Seq<char>)
    ensures
        exists|back: Seq<char>| blank(back) && s == #[trigger] (trim_back(s) + back),
        trim_back(s).len() > 0 ==> !white_space(trim_back(s).last()),
    decreases s.len(),
{
    if s.len() > 0 && white_space(s.last()) {
        lemma_trim_back(s.drop_last());
        let rest = choose|back: Seq<char>|
            blank(back) && s.drop_last() == #[trigger] (trim_back(s.drop_last()) + back);
        let back = rest.push(s.last());
        assert(s =~= s.drop_last().push(s.last()));
        assert(trim_back(s) == trim_back(s.drop_last()));
        assert((trim_back(s) + rest).push(s.last()) =~= trim_back(s) + back);
    } else {
        assert(s =~= trim_back(s) + Seq::<char>::empty());
    }
}

/// White space around a text that has none at its ends is dropped.
pub proof fn lemma_trim_of_padded(front: Seq<char>, s: Seq<char>, back: Seq<char>)
    requires
        blank(front),
        blank(back),
        s.len() > 0,
        !white_space(s[0]),
        !white_space(s.last()),
    ensures
        trim(front + s + back) == s,
    decreases front.len() + back.len(),
{
    let all = front + s + back;
    if front.len() > 0 {
        assert(all[0] == front[0]);
        assert(white_space(front[0]));
        let rest = front.drop_first();
        assert forall|i: int| 0 <= i < rest.len() implies white_space(#[trigger] rest[i]) by {
            assert(rest[i] == front[i + 1]);
        }
        assert(all.drop_first() =~= rest + s + back);
        lemma_trim_of_padded(rest, s, back);
    } else {
        assert(all[0] == s[0]);
        assert(trim_front(all) == all);
        if back.len() > 0 {
            assert(white_space(back[back.len() - 1]));
            assert(all.last() == back.last());
            let rest = back.drop_last();
            assert forall|i: int| 0 <= i < rest.len() implies white_space(#[trigger] rest[i]) by {
                assert(rest[i] == back[i]);
            }
            assert(all.drop_last() =~= front + s + rest);
            lemma_trim_of_padded(front, s, rest);
            assert((front + s + rest)[0] == s[0]);
            assert(trim_front(front + s + rest) == front + s + rest);
        } else {
            assert(all =~= s);
        }
    }
}

/// Every character of `s` is the digit 0.
pub open spec fn zeros(s: Seq<char>) -> bool {
    forall|i: int| 0 <= i < s.len() ==> #[trigger] s[i] == '0'
}

proof fn lemma_digits_of_value(s: Seq<char>)
    requires
        s.len() > 0,
        all_digits(s),
    ensures
        exists|z: Seq<char>| zeros(z) && s == #[trigger] (z + decimal(digits_value(s))),
    decreases s.len(),
{
    let t = s.drop_last();
    let d = (s.last() as nat - '0' as nat) as nat;
    assert(is_digit(s[s.len() - 1]));
    assert(digit_char(d) == s.last());
    if t.len() == 0 {
        assert(digits_value(t) == 0);
        assert(s =~= Seq::<char>::empty() + decimal(digits_value(s)));
    } else {
        assert forall|i: int| 0 <= i < t.len() implies is_digit(#[trigger] t[i]) by {
            assert(is_digit(s[i]));
        }
        lemma_digits_of_value(t);
        let v = digits_value(t);
        let z = choose|z: Seq<char>| zeros(z) && t == #[trigger] (z + decimal(v));
        if v == 0 {
            assert(s =~= t + decimal(d));
            assert forall|i: int| 0 <= i < t.len() implies #[trigger] t[i] == '0' by {
                if i < z.len() {
                    assert(t[i] == z[i]);
                } else {
                    assert(decimal(0)[0] == digit_char(0));
                }
            }
        } else {
            assert(decimal(v * 10 + d) =~= decimal(v).push(digit_char(d)));
            assert(s =~= t.push(s.last()));
            assert((z + decimal(v)).push(digit_char(d)) =~= z + decimal(v).push(digit_char(d)));
            assert(s == z + decimal(digits_value(s)));
        }
    }
}

proof fn lemma_value_of_digits(z: Seq<char>, s: Seq<char>)
    requires
        zeros(z),
    ensures
        digits_value(z + s) == digits_value(s),
    decreases z.len() + s.len(),
{
    if s.len() > 0 {
        assert((z + s).drop_last() =~= z + s.drop_last());
        lemma_value_of_digits(z, s.drop_last());
    } else {
        assert(z + s =~= z);
        if z.len() > 0 {
            lemma_value_of_digits(z.drop_last(), s);
            assert(z.drop_last() + s =~= z.drop_last());
            assert(z[z.len() - 1] == '0');
        }
    }
}

/// A text is read as a number exactly if it is that number's numeral, behind any
/// number of zeros and one `+` or none.
pub proof fn law_number_is_read_from_its_numeral(s: Seq<char>, n: u32)
    ensures
        parsed_u32(s) == Some(n) <==> exists|z: Seq<char>|
            zeros(z) && {
                let digits = #[trigger] (z + decimal(n as nat));
                s == digits || s == seq!['+'] + digits
            },
{
    lemma_decimal_digits(n as nat);
    if parsed_u32(s) == Some(n) {
        let body = unsigned_body(s);
        lemma_digits_of_value(body);
        let z = choose|z: Seq<char>| zeros(z) && body == #[trigger] (z + decimal(n as nat));
        if s.first() == '+' {
            assert(s =~= seq!['+'] + (z + decimal(n as nat)));
        }
    }
    if exists|z: Seq<char>|
        zeros(z) && {
            let digits = #[trigger] (z + decimal(n as nat));
            s == digits || s == seq!['+'] + digits
        } {
        let z = choose|z: Seq<char>|
            zeros(z) && {
                let digits = #[trigger] (z + decimal(n as nat));
                s == digits || s == seq!['+'] + digits
            };
        let digits = z + decimal(n as nat);
        lemma_value_of_digits(z, decimal(n as nat));
        assert forall|i: int| 0 <= i < digits.len() implies is_digit(#[trigger] digits[i]) by {
            if i < z.len() {
                assert(digits[i] == z[i]);
            } else {
                assert(digits[i] == decimal(n as nat)[i - z.len()]);
            }
        }
        assert(is_digit(digits[0]));
        assert((seq!['+'] + digits).drop_first() =~= digits);
        assert(unsigned_body(s) == digits);
    }
}

} // verus!
