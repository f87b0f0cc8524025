//! Character-level text rules shared by the registry, the routers and the
//! policies.
use vstd::prelude::*;

verus! {

/// ASCII lower case of one character; every other character is kept.
pub open spec fn lower_char(c: char) -> char {
    if 'A' <= c && c <= 'Z' {
        (c as u32 + 32) as char
    } else {
        c
    }
}

/// ASCII lower case of a text.
pub open spec fn lower(s: Seq<char>) -> Seq<char> {
    s.map_values(|c: char| lower_char(c))
}

/// Two texts that differ in ASCII case at most.
pub open spec fn same_ignoring_case(a: Seq<char>, b: Seq<char>) -> bool {
    lower(a) == lower(b)
}

/// `needle` stands in `hay` at position `at`.
pub open spec fn occurs_at(hay: Seq<char>, needle: Seq<char>, at: int) -> bool {
    0 <= at && at + needle.len() <= hay.len() && hay.subrange(at, at + needle.len()) == needle
}

/// `needle` stands somewhere in `hay`.
pub open spec fn has_sub(hay: Seq<char>, needle: Seq<char>) -> bool {
    exists|at: int| #[trigger] occurs_at(hay, needle, at)
}

/// `s` begins with `prefix`.
pub open spec fn begins_with(s: Seq<char>, prefix: Seq<char>) -> bool {
    occurs_at(s, prefix, 0)
}

/// A character with the Unicode `White_Space` property.
pub open spec fn white_space(c: char) -> bool {
    let n = c as u32;
    ||| 0x9 <= n <= 0xD
    ||| n == 0x20
    ||| n == 0x85
    ||| n == 0xA0
    ||| n == 0x1680
    ||| 0x2000 <= n <= 0x200A
    ||| n == 0x2028
    ||| n == 0x2029
    ||| n == 0x202F
    ||| n == 0x205F
    ||| n == 0x3000
}

/// `s` without the white space at its start.
pub open spec fn trimmed_start(s: Seq<char>) -> Seq<char>
    decreases s.len(),
{
    if s.len() > 0 && white_space(s[0]) {
        trimmed_start(s.subrange(1, s.len() as int))
    } else {
        s
    }
}

/// `s` without the white space at its end.
pub open spec fn trimmed_end(s: Seq<char>) -> Seq<char>
    decreases s.len(),
{
    if s.len() > 0 && white_space(s.last()) {
        trimmed_end(s.drop_last())
    } else {
        s
    }
}

/// `s` without the white space at either end.
pub open spec fn trimmed(s: Seq<char>) -> Seq<char> {
    trimmed_end(trimmed_start(s))
}

/// `s` without the leading and trailing repetitions of `c`.
pub open spec fn without_start(s: Seq<char>, c: char) -> Seq<char>
    decreases s.len(),
{
    if s.len() > 0 && s[0] == c {
        without_start(s.subrange(1, s.len() as int), c)
    } else {
        s
    }
}

/// `s` without the trailing repetitions of `c`.
pub open spec fn without_end(s: Seq<char>, c: char) -> Seq<char>
    decreases s.len(),
{
    if s.len() > 0 && s.last() == c {
        without_end(s.drop_last(), c)
    } else {
        s
    }
}

/// The part of `s` behind the last `c`; all of `s` where there is none.
pub open spec fn after_last(s: Seq<char>, c: char) -> Seq<char>
    decreases s.len(),
{
    if s.len() == 0 || s.last() == c {
        Seq::empty()
    } else {
        after_last(s.drop_last(), c).push(s.last())
    }
}

/// The digit for a value below sixteen, in lower case.
pub open spec fn digit_char(d: nat) -> char {
    if d < 10 {
        (48 + d) as char
    } else {
        (87 + d) as char
    }
}

/// `n` written in the given base, without leading zeros.
pub open spec fn in_base(n: nat, base: nat) -> Seq<char>
    decreases n,
{
    if base < 2 {
        Seq::empty()
    } else if n < base {
        seq![digit_char(n)]
    } else {
        proof {
            vstd::arithmetic::div_mod::lemma_div_decreases(n as int, base as int);
        }
        in_base(n / base, base).push(digit_char(n % base))
    }
}

/// `n` in decimal.
pub open spec fn decimal(n: nat) -> Seq<char> {
    in_base(n, 10)
}

/// The value of a run of decimal digits; `None` where a character is no
/// digit.
pub open spec fn digits_value(s: Seq<char>) -> Option<nat>
    decreases s.len(),
{
    if s.len() == 0 {
        Some(0nat)
    } else {
        match digits_value(s.drop_last()) {
            Some(v) if '0' <= s.last() && s.last() <= '9' => Some(
                v * 10 + (s.last() as u32 - 48) as nat,
            ),
            _ => None,
        }
    }
}

/// What an unsigned 64-bit number text stands for: an optional plus sign,
/// then at least one decimal digit, with a value that fits.
pub open spec fn u64_value(s: Seq<char>) -> Option<u64> {
    let digits = if s.len() > 0 && s[0] == '+' {
        s.subrange(1, s.len() as int)
    } else {
        s
    };
    if digits.len() == 0 {
        None
    } else {
        match digits_value(digits) {
            Some(v) if v <= u64::MAX => Some(v as u64),
            _ => None,
        }
    }
}

/// Appends one character (`String::push`): the text gains exactly that
/// character at its end.
pub assume_specification[ String::push ](s: &mut String, c: char)
    ensures
        final(s)@ == old(s)@.push(c),
;

/// Whether a character is white space.
pub fn is_white_space(c: char) -> (r: bool)
    ensures
        r == white_space(c),
{
    let n: u32 = c as u32;
    (0x9 <= n && n <= 0xD) || n == 0x20 || n == 0x85 || n == 0xA0 || n == 0x1680 || (0x2000 <= n
        && n <= 0x200A) || n == 0x2028 || n == 0x2029 || n == 0x202F || n == 0x205F || n == 0x3000
}

pub fn to_lower_char(c: char) -> (r: char)
    ensures
        r == lower_char(c),
{
    if 'A' <= c && c <= 'Z' {
        ((c as u8) + 32) as char
    } else {
        c
    }
}

/// Whether two texts hold the same characters.
pub fn text_eq(a: &str, b: &str) -> (r: bool)
    ensures
        r == (a@ == b@),
{
    let left: String = a.to_owned();
    let right: String = b.to_owned();
    left == right
}

/// The characters of a text.
pub fn chars_of(s: &str) -> (r: Vec<char>)
    ensures
        r@ == s@,
{
    let mut out: Vec<char> = Vec::new();
    for c in it: s.chars()
        invariant
            out@ == s@.take(it.index()),
            it.seq() == s@,
    {
        out.push(c);
        assert(s@.take(it.index() + 1) == s@.take(it.index()).push(c));
    }
    assert(s@.take(s@.len() as int) == s@);
    out
}

/// A text made of the characters `from..to` of `v`.
pub fn text_of(v: &Vec<char>, from: usize, to: usize) -> (r: String)
    requires
        from <= to <= v.len(),
    ensures
        r@ == v@.subrange(from as int, to as int),
{
    let mut out: String = String::new();
    let mut i: usize = from;
    while i < to
        invariant
            from <= i <= to <= v.len(),
            out@ == v@.subrange(from as int, i as int),
        decreases to - i,
    {
        out.push(v[i]);
        i = i + 1;
        assert(v@.subrange(from as int, i as int) == v@.subrange(from as int, i - 1).push(
            v@[i - 1],
        ));
    }
    out
}

/// The characters of a text in ASCII lower case.
pub fn lower_chars(s: &str) -> (r: Vec<char>)
    ensures
        r@ == lower(s@),
{
    let chars = chars_of(s);
    let mut out: Vec<char> = Vec::new();
    let mut i: usize = 0;
    while i < chars.len()
        invariant
            i <= chars.len(),
            chars@ == s@,
            out@ == lower(s@).take(i as int),
        decreases chars.len() - i,
    {
        out.push(to_lower_char(chars[i]));
        i = i + 1;
        assert(lower(s@).take(i as int) == lower(s@).take(i - 1).push(lower(s@)[i - 1]));
    }
    assert(lower(s@).take(s@.len() as int) == lower(s@));
    out
}

/// Whether two character runs are equal.
pub fn chars_eq(a: &Vec<char>, b: &Vec<char>) -> (r: bool)
    ensures
        r == (a@ == b@),
{
    if a.len() != b.len() {
        return false;
    }
    let mut i: usize = 0;
    while i < a.len()
        invariant
            i <= a.len(),
            a.len() == b.len(),
            forall|j: int| 0 <= j < i ==> a@[j] == b@[j],
        decreases a.len() - i,
    {
        if a[i] != b[i] {
            return false;
        }
        i = i + 1;
    }
    assert(a@ == b@);
    true
}

/// Whether `needle` stands in `hay` at position `at`.
pub fn chars_at(hay: &Vec<char>, needle: &Vec<char>, at: usize) -> (r: bool)
    ensures
        r == occurs_at(hay@, needle@, at as int),
{
    if at > hay.len() || needle.len() > hay.len() - at {
        return false;
    }
    let mut i: usize = 0;
    while i < needle.len()
        invariant
            i <= needle.len(),
            at + needle.len() <= hay.len(),
            forall|j: int| 0 <= j < i ==> hay@[at + j] == needle@[j],
        decreases needle.len() - i,
    {
        if hay[at + i] != needle[i] {
            assert(hay@.subrange(at as int, at + needle.len())[i as int] != needle@[i as int]);
            return false;
        }
        i = i + 1;
    }
    assert(hay@.subrange(at as int, at + needle.len()) == needle@);
    true
}

/// Whether `needle` stands somewhere in `hay`.
pub fn chars_contain(hay: &Vec<char>, needle: &Vec<char>) -> (r: bool)
    ensures
        r == has_sub(hay@, needle@),
{
    let mut at: usize = 0;
    while at <= hay.len()
        invariant
            at <= hay.len() + 1,
            forall|j: int| 0 <= j < at ==> !occurs_at(hay@, needle@, j),
        decreases hay.len() + 1 - at,
    {
        if chars_at(hay, needle, at) {
            return true;
        }
        if at == hay.len() {
            return false;
        }
        at = at + 1;
    }
    false
}

/// Whether the ASCII lower case of `hay` contains `needle`.
pub fn lower_contains(hay: &str, needle: &str) -> (r: bool)
    ensures
        r == has_sub(lower(hay@), needle@),
{
    chars_contain(&lower_chars(hay), &chars_of(needle))
}

/// Whether `hay` contains `needle`.
pub fn text_contains(hay: &str, needle: &str) -> (r: bool)
    ensures
        r == has_sub(hay@, needle@),
{
    chars_contain(&chars_of(hay), &chars_of(needle))
}

/// Whether two texts differ in ASCII case at most.
pub fn eq_ignoring_case(a: &str, b: &str) -> (r: bool)
    ensures
        r == same_ignoring_case(a@, b@),
{
    chars_eq(&lower_chars(a), &lower_chars(b))
}

/// The rest of `s` behind `prefix`, where it begins with it.
pub fn after_prefix(s: &str, prefix: &str) -> (r: Option<String>)
    ensures
        match r {
            Some(rest) => begins_with(s@, prefix@) && rest@ == s@.subrange(
                prefix@.len() as int,
                s@.len() as int,
            ),
            None => !begins_with(s@, prefix@),
        },
{
    let chars = chars_of(s);
    let head = chars_of(prefix);
    if chars_at(&chars, &head, 0) {
        Some(text_of(&chars, head.len(), chars.len()))
    } else {
        None
    }
}

/// `s` without the white space at either end.
pub fn trim(s: &str) -> (r: String)
    ensures
        r@ == trimmed(s@),
{
    let chars = chars_of(s);
    assert(s@.subrange(0, s@.len() as int) == s@);
    let mut from: usize = 0;
    while from < chars.len() && is_white_space(chars[from])
        invariant
            from <= chars.len(),
            chars@ == s@,
            trimmed_start(s@) == trimmed_start(s@.subrange(from as int, s@.len() as int)),
        decreases chars.len() - from,
    {
        assert(s@.subrange(from as int, s@.len() as int).subrange(1, s@.len() - from) == s@.subrange(
            from + 1,
            s@.len() as int,
        ));
        from = from + 1;
    }
    assert(trimmed_start(s@) == s@.subrange(from as int, s@.len() as int));
    let mut to: usize = chars.len();
    while from < to && is_white_space(chars[to - 1])
        invariant
            from <= to <= chars.len(),
            chars@ == s@,
            trimmed_end(trimmed_start(s@)) == trimmed_end(s@.subrange(from as int, to as int)),
        decreases to - from,
    {
        assert(s@.subrange(from as int, to as int).drop_last() == s@.subrange(from as int, to - 1));
        to = to - 1;
    }
    text_of(&chars, from, to)
}

/// `s` without the leading and trailing repetitions of `c`.
pub fn trim_char(s: &str, c: char) -> (r: String)
    ensures
        r@ == without_end(without_start(s@, c), c),
{
    let chars = chars_of(s);
    assert(s@.subrange(0, s@.len() as int) == s@);
    let mut from: usize = 0;
    while from < chars.len() && chars[from] == c
        invariant
            from <= chars.len(),
            chars@ == s@,
            without_start(s@, c) == without_start(s@.subrange(from as int, s@.len() as int), c),
        decreases chars.len() - from,
    {
        assert(s@.subrange(from as int, s@.len() as int).subrange(1, s@.len() - from) == s@.subrange(
            from + 1,
            s@.len() as int,
        ));
        from = from + 1;
    }
    assert(without_start(s@, c) == s@.subrange(from as int, s@.len() as int));
    let mut to: usize = chars.len();
    while from < to && chars[to - 1] == c
        invariant
            from <= to <= chars.len(),
            chars@ == s@,
            without_end(without_start(s@, c), c) == without_end(
                s@.subrange(from as int, to as int),
                c,
            ),
        decreases to - from,
    {
        assert(s@.subrange(from as int, to as int).drop_last() == s@.subrange(from as int, to - 1));
        to = to - 1;
    }
    text_of(&chars, from, to)
}

proof fn lemma_after_last_suffix(s: Seq<char>, c: char, from: int, to: int)
    requires
        0 <= from <= to <= s.len(),
        forall|j: int| from <= j < to ==> s[j] != c,
        from == 0 || s[from - 1] == c,
    ensures
        after_last(s.subrange(0, to), c) == s.subrange(from, to),
    decreases to - from,
{
    let head = s.subrange(0, to);
    if from == to {
        if to > 0 {
            assert(head.last() == c);
        }
        assert(s.subrange(from, to) == Seq::<char>::empty());
    } else {
        lemma_after_last_suffix(s, c, from, to - 1);
        assert(head.drop_last() == s.subrange(0, to - 1));
        assert(s.subrange(from, to) == s.subrange(from, to - 1).push(s[to - 1]));
    }
}

/// The part of `s` behind the last `c`; all of `s` where there is none.
pub fn behind_last(s: &str, c: char) -> (r: String)
    ensures
        r@ == after_last(s@, c),
{
    let chars = chars_of(s);
    let mut from: usize = chars.len();
    while from > 0 && chars[from - 1] != c
        invariant
            from <= chars.len(),
            chars@ == s@,
            forall|j: int| from <= j < s@.len() ==> s@[j] != c,
        decreases from,
    {
        from = from - 1;
    }
    proof {
        lemma_after_last_suffix(s@, c, from as int, s@.len() as int);
        assert(s@.subrange(0, s@.len() as int) == s@);
    }
    text_of(&chars, from, chars.len())
}

/// The digit for a value below sixteen.
fn digit_of(d: u128) -> (r: char)
    requires
        d < 16,
    ensures
        r == digit_char(d as nat),
{
    if d < 10 {
        (48 + d as u8) as char
    } else {
        (87 + d as u8) as char
    }
}

/// `n` written in the given base.
pub fn number_in_base(n: u128, base: u128) -> (r: String)
    requires
        2 <= base <= 16,
    ensures
        r@ == in_base(n as nat, base as nat),
    decreases n,
{
    if n < base {
        let mut out: String = String::new();
        out.push(digit_of(n));
        assert(out@ == seq![digit_char(n as nat)]);
        out
    } else {
        proof {
            vstd::arithmetic::div_mod::lemma_div_decreases(n as int, base as int);
            vstd::arithmetic::div_mod::lemma_mod_bound(n as int, base as int);
        }
        let mut out: String = number_in_base(n / base, base);
        out.push(digit_of(n % base));
        out
    }
}

/// `n` in decimal.
pub fn decimal_text(n: u64) -> (r: String)
    ensures
        r@ == decimal(n as nat),
{
    number_in_base(n as u128, 10)
}

/// `a` followed by `b`.
pub fn concat2(a: &str, b: &str) -> (r: String)
    ensures
        r@ == a@ + b@,
{
    let mut out: String = a.to_owned();
    out.append(b);
    out
}

/// `a` followed by `b` and `c`.
pub fn concat3(a: &str, b: &str, c: &str) -> (r: String)
    ensures
        r@ == a@ + b@ + c@,
{
    let mut out: String = a.to_owned();
    out.append(b);
    out.append(c);
    out
}

proof fn lemma_digits_value_prefix(s: Seq<char>, upto: int)
    requires
        0 <= upto <= s.len(),
    ensures
        digits_value(s.take(upto)) is None ==> digits_value(s) is None,
        digits_value(s.take(upto)) matches Some(v) ==> (digits_value(s) matches Some(w) ==> v <= w),
    decreases s.len() - upto,
{
    if upto == s.len() {
        assert(s.take(upto) == s);
    } else {
        assert(s.take(upto + 1).drop_last() == s.take(upto));
        lemma_digits_value_prefix(s, upto + 1);
    }
}

/// The number that a text stands for.
pub fn parse_u64(s: &str) -> (r: Option<u64>)
    ensures
        r == u64_value(s@),
{
    let chars = chars_of(s);
    let start: usize = if chars.len() > 0 && chars[0] == '+' { 1 } else { 0 };
    let ghost digits = if s@.len() > 0 && s@[0] == '+' {
        s@.subrange(1, s@.len() as int)
    } else {
        s@
    };
    assert(digits == s@.subrange(start as int, s@.len() as int));
    if start == chars.len() {
        return None;
    }
    let mut value: u64 = 0;
    let mut i: usize = start;
    while i < chars.len()
        invariant
            start <= i <= chars.len(),
            chars@ == s@,
            digits == s@.subrange(start as int, s@.len() as int),
            digits.len() > 0,
            u64_value(s@) == (match digits_value(digits) {
                Some(v) if v <= u64::MAX => Some(v as u64),
                _ => None,
            }),
            digits_value(digits.take(i - start)) == Some(value as nat),
        decreases chars.len() - i,
    {
        let c: char = chars[i];
        let ghost done = digits.take(i - start + 1);
        proof {
            assert(done.drop_last() == digits.take(i - start));
            assert(done.last() == c);
            lemma_digits_value_prefix(digits, i - start + 1);
        }
        if !('0' <= c && c <= '9') {
            return None;
        }
        let d: u64 = (c as u64) - 48;
        if value > (u64::MAX - d) / 10 {
            assert(value * 10 + d > u64::MAX);
            return None;
        }
        value = value * 10 + d;
        i = i + 1;
    }
    assert(digits.take(digits.len() as int) == digits);
    Some(value)
}

/// Lower case changes the capitals of ASCII and nothing else; doing it twice
/// changes nothing more.
pub proof fn law_lower(s: Seq<char>, i: int)
    requires
        0 <= i < s.len(),
    ensures
        lower(s).len() == s.len(),
        65 <= s[i] as u32 <= 90 ==> lower(s)[i] as u32 == s[i] as u32 + 32,
        !(65 <= s[i] as u32 <= 90) ==> lower(s)[i] == s[i],
        lower(lower(s)) == lower(s),
{
    assert forall|j: int| 0 <= j < s.len() implies lower(lower(s))[j] == lower(s)[j] by {
        let c = s[j];
        if 'A' <= c && c <= 'Z' {
            assert((c as u32 + 32) as char > 'Z');
        }
    }
    assert(lower(lower(s)) =~= lower(s));
}

/// A text is found in another exactly where the other is made of it and what
/// stands before and after it.
pub proof fn law_found_text(hay: Seq<char>, needle: Seq<char>)
    ensures
        has_sub(hay, needle) <==> exists|before: Seq<char>, after: Seq<char>|
            hay == #[trigger] (before + needle + after),
{
    if has_sub(hay, needle) {
        let at = choose|at: int| #[trigger] occurs_at(hay, needle, at);
        let before = hay.subrange(0, at);
        let after = hay.subrange(at + needle.len(), hay.len() as int);
        assert(hay =~= before + needle + after) by {
            assert forall|i: int| at <= i < at + needle.len() implies hay[i] == needle[i - at] by {
                assert(hay.subrange(at, at + needle.len())[i - at] == needle[i - at]);
            }
        }
    }
    if exists|before: Seq<char>, after: Seq<char>| hay == #[trigger] (before + needle + after) {
        let (before, after) = choose|before: Seq<char>, after: Seq<char>|
            hay == #[trigger] (before + needle + after);
        assert(hay.subrange(before.len() as int, (before.len() + needle.len()) as int) =~= needle);
        assert(occurs_at(hay, needle, before.len() as int));
    }
}

/// A text begins with another exactly where it is that one and a rest.
pub proof fn law_begins_with(s: Seq<char>, prefix: Seq<char>)
    ensures
        begins_with(s, prefix) <==> exists|rest: Seq<char>| s == #[trigger] (prefix + rest),
{
    if begins_with(s, prefix) {
        let rest = s.subrange(prefix.len() as int, s.len() as int);
        assert forall|i: int| 0 <= i < prefix.len() implies s[i] == prefix[i] by {
            assert(s.subrange(0, prefix.len() as int)[i] == prefix[i]);
        }
        assert(s =~= prefix + rest);
    }
    if exists|rest: Seq<char>| s == #[trigger] (prefix + rest) {
        let rest = choose|rest: Seq<char>| s == #[trigger] (prefix + rest);
        assert(s.subrange(0, prefix.len() as int) =~= prefix);
    }
}

/// No character of the text is anything but white space.
pub open spec fn all_white(s: Seq<char>) -> bool {
    forall|i: int| 0 <= i < s.len() ==> white_space(#[trigger] s[i])
}

proof fn lemma_trimmed_start(s: Seq<char>)
    ensures
        ({
            let r = trimmed_start(s);
            &&& r.len() <= s.len()
            &&& s == s.take(s.len() - r.len()) + r
            &&& all_white(s.take(s.len() - r.len()))
            &&& r.len() > 0 ==> !white_space(r[0])
        }),
    decreases s.len(),
{
    let r = trimmed_start(s);
    if s.len() > 0 && white_space(s[0]) {
        let t = s.subrange(1, s.len() as int);
        lemma_trimmed_start(t);
        let a = t.take(t.len() - r.len());
        assert(s =~= seq![s[0]] + t);
        assert(s.take(s.len() - r.len()) =~= seq![s[0]] + a);
        assert(s =~= s.take(s.len() - r.len()) + r);
        assert forall|i: int| 0 <= i < s.len() - r.len() implies white_space(
            #[trigger] s.take(s.len() - r.len())[i],
        ) by {
            if i > 0 {
                assert(a[i - 1] == s[i]);
            }
        }
    } else {
        assert(s.take(0) + s =~= s);
        assert(s.take(s.len() - r.len()) =~= s.take(0));
    }
}

proof fn lemma_trimmed_end(s: Seq<char>)
    ensures
        ({
            let r = trimmed_end(s);
            &&& r.len() <= s.len()
            &&& r == s.take(r.len() as int)
            &&& all_white(s.skip(r.len() as int))
            &&& r.len() > 0 ==> !white_space(r.last())
        }),
    decreases s.len(),
{
    let r = trimmed_end(s);
    if s.len() > 0 && white_space(s.last()) {
        let t = s.drop_last();
        lemma_trimmed_end(t);
        assert(r =~= s.take(r.len() as int));
        let b = s.skip(r.len() as int);
        assert forall|i: int| 0 <= i < b.len() implies white_space(#[trigger] b[i]) by {
            if i < b.len() - 1 {
                assert(t.skip(r.len() as int)[i] == b[i]);
            }
        }
    } else {
        assert(s.take(s.len() as int) =~= s);
    }
}

/// Trimming takes white space off both ends, all of it and nothing else.
pub proof fn law_trimmed(s: Seq<char>)
    ensures
        exists|before: Seq<char>, after: Seq<char>|
            all_white(before) && all_white(after) && s == #[trigger] (before + trimmed(s) + after),
        trimmed(s).len() > 0 ==> !white_space(trimmed(s)[0]) && !white_space(trimmed(s).last()),
        trimmed(s).len() == 0 <==> all_white(s),
{
    let t = trimmed_start(s);
    let r = trimmed(s);
    lemma_trimmed_start(s);
    lemma_trimmed_end(t);
    let before = s.take(s.len() - t.len());
    let after = t.skip(r.len() as int);
    assert(t =~= r + after);
    assert(s =~= before + r + after);
    if r.len() > 0 {
        assert(r[0] == t[0]);
        assert(s[s.len() - t.len()] == t[0]);
    } else {
        assert forall|i: int| 0 <= i < s.len() implies white_space(#[trigger] s[i]) by {
            if i < before.len() {
                assert(before[i] == s[i]);
            } else {
                assert(after[i - before.len()] == s[i]);
            }
        }
    }
}

/// Blanks, tabs and line ends are white space; letters, digits and signs of
/// ASCII are not.
pub proof fn law_white_space(c: char)
    ensures
        c as u32 == 32 || c as u32 == 9 || c as u32 == 10 || c as u32 == 13 ==> white_space(c),
        33 <= c as u32 <= 126 ==> !white_space(c),
{
}

/// What stands after the last of a character holds none of it, and is the end
/// of the text from there on; without that character it is the text.
pub proof fn law_after_last(s: Seq<char>, c: char)
    ensures
        !after_last(s, c).contains(c),
        s.contains(c) ==> exists|head: Seq<char>| s == #[trigger] head.push(c) + after_last(s, c),
        !s.contains(c) ==> after_last(s, c) == s,
    decreases s.len(),
{
    if s.len() == 0 {
    } else if s.last() == c {
        assert(s =~= s.drop_last().push(c) + Seq::<char>::empty());
        assert(s.contains(s[s.len() - 1]));
    } else {
        let t = s.drop_last();
        law_after_last(t, c);
        let r = after_last(t, c);
        crate::table::lemma_push_contains(r, s.last(), c);
        crate::table::lemma_push_contains(t, s.last(), c);
        assert(t.push(s.last()) =~= s);
        if t.contains(c) {
            let head = choose|head: Seq<char>| t == #[trigger] head.push(c) + r;
            assert(s =~= head.push(c) + r.push(s.last()));
        }
    }
}

/// Dropping a character from the ends drops all of it there and nothing else.
pub proof fn law_without_ends(s: Seq<char>, c: char)
    ensures
        exists|n: int| #![auto]
            0 <= n <= s.len() && without_start(s, c) == s.skip(n) && forall|i: int|
                0 <= i < n ==> s[i] == c,
        without_start(s, c).len() > 0 ==> without_start(s, c)[0] != c,
        exists|n: int| #![auto]
            0 <= n <= s.len() && without_end(s, c) == s.take(n) && forall|i: int|
                n <= i < s.len() ==> s[i] == c,
        without_end(s, c).len() > 0 ==> without_end(s, c).last() != c,
    decreases s.len(),
{
    if s.len() > 0 && s[0] == c {
        let t = s.subrange(1, s.len() as int);
        law_without_ends(t, c);
        let n = choose|n: int| #![auto]
            0 <= n <= t.len() && without_start(t, c) == t.skip(n) && forall|i: int|
                0 <= i < n ==> t[i] == c;
        assert(t.skip(n) =~= s.skip(n + 1));
        assert forall|i: int| 0 <= i < n + 1 implies s[i] == c by {
            if i > 0 {
                assert(t[i - 1] == s[i]);
            }
        }
        assert(without_start(s, c) == s.skip(n + 1));
    } else {
        assert(s.skip(0) =~= s);
        assert(without_start(s, c) == s.skip(0));
    }
    if s.len() > 0 && s.last() == c {
        let t = s.drop_last();
        law_without_ends(t, c);
        let n = choose|n: int| #![auto]
            0 <= n <= t.len() && without_end(t, c) == t.take(n) && forall|i: int|
                n <= i < t.len() ==> t[i] == c;
        assert(t.take(n) =~= s.take(n));
        assert forall|i: int| n <= i < s.len() implies s[i] == c by {
            if i < t.len() {
                assert(t[i] == s[i]);
            }
        }
        assert(without_end(s, c) == s.take(n));
    } else {
        assert(s.take(s.len() as int) =~= s);
        assert(without_end(s, c) == s.take(s.len() as int));
    }
}

proof fn lemma_decimal_digits(n: nat)
    ensures
        digits_value(decimal(n)) == Some(n),
        decimal(n).len() > 0,
        '0' <= decimal(n)[0] <= '9',
    decreases n,
{
    let d = decimal(n);
    if n < 10 {
        assert(d.drop_last() =~= Seq::<char>::empty());
        assert(digits_value(d.drop_last()) == Some(0nat));
        assert(d.last() == (48 + n) as char);
        assert(d.last() as u32 - 48 == n);
    } else {
        vstd::arithmetic::div_mod::lemma_div_decreases(n as int, 10);
        lemma_decimal_digits(n / 10);
        assert(d == in_base(n / 10, 10).push(digit_char(n % 10)));
        assert(d.drop_last() =~= decimal(n / 10));
        assert(d.last() == (48 + n % 10) as char);
        assert(d.last() as u32 - 48 == n % 10);
        assert(n == (n / 10) * 10 + n % 10);
        assert(d[0] == decimal(n / 10)[0]);
    }
}

/// A number that was written in decimal is read back as that number, also
/// with a plus before it.
pub proof fn law_decimal_is_read_back(n: u64)
    ensures
        u64_value(decimal(n as nat)) == Some(n),
        u64_value(seq!['+'] + decimal(n as nat)) == Some(n),
{
    lemma_decimal_digits(n as nat);
    let d = decimal(n as nat);
    let plus = seq!['+'] + d;
    assert(plus.subrange(1, plus.len() as int) =~= d);
}

/// What holds anything but digits behind a plus is no number, nor is an empty
/// text.
pub proof fn law_only_digits_are_numbers(s: Seq<char>, i: int)
    requires
        0 <= i < s.len(),
        !('0' <= s[i] <= '9'),
        i > 0 || s[i] != '+',
    ensures
        u64_value(s) is None,
        u64_value(Seq::<char>::empty()) is None,
        u64_value(seq!['+']) is None,
{
    let plus = seq!['+'];
    assert(plus.subrange(1, 1) =~= Seq::<char>::empty());
    if s[0] == '+' {
        let t = s.subrange(1, s.len() as int);
        assert(t[i - 1] == s[i]);
        lemma_no_digit(t, i - 1);
    } else {
        lemma_no_digit(s, i);
    }
}

proof fn lemma_no_digit(s: Seq<char>, i: int)
    requires
        0 <= i < s.len(),
        !('0' <= s[i] <= '9'),
    ensures
        digits_value(s) is None,
    decreases s.len(),
{
    if i < s.len() - 1 {
        lemma_no_digit(s.drop_last(), i);
    }
}

/// Two numbers are written differently.
pub proof fn law_decimals_differ(a: u64, b: u64)
    requires
        a != b,
    ensures
        decimal(a as nat) != decimal(b as nat),
{
    lemma_decimal_digits(a as nat);
    lemma_decimal_digits(b as nat);
}

} // verus!
