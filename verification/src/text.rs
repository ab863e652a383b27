//! Text as sequences of characters: searching, trimming, splitting, reading and writing numbers.
use vstd::prelude::*;
use vstd::slice::slice_subrange;
use vstd::string::*;
use vstd::utf8::*;

verus! {

/// The characters of `s`.
pub fn chars_of(s: &str) -> (chars: Vec<char>)
    ensures
        chars@ == s@,
{
    let mut chars: Vec<char> = Vec::new();
    for c in it: s.chars()
        invariant
            it.seq() == s@,
            chars@ == s@.take(it.index()),
    {
        chars.push(c);
    }
    chars
}

/// The string of `chars`.
pub fn string_of(chars: &[char]) -> (s: String)
    ensures
        s@ == chars@,
{
    let mut s = String::new();
    let mut i: usize = 0;
    while i < chars.len()
        invariant
            i <= chars@.len(),
            s@ == chars@.take(i as int),
        decreases chars@.len() - i,
    {
        s.push(chars[i]);
        i += 1;
    }
    s
}

/// Whether two texts are the same.
pub fn same_text(a: &str, b: &str) -> (same: bool)
    ensures
        same == (a@ == b@),
{
    let x: &[u8] = a.as_bytes();
    let y: &[u8] = b.as_bytes();
    proof {
        encode_utf8_decode_utf8(a@);
        encode_utf8_decode_utf8(b@);
    }
    if x.len() != y.len() {
        return false;
    }
    let mut i: usize = 0;
    while i < x.len()
        invariant
            i <= x@.len(),
            x@.len() == y@.len(),
            x@ == encode_utf8(a@),
            y@ == encode_utf8(b@),
            x@.take(i as int) == y@.take(i as int),
        decreases x@.len() - i,
    {
        if x[i] != y[i] {
            return false;
        }
        assert(x@.take(i + 1) =~= x@.take(i as int).push(x@[i as int]));
        assert(y@.take(i + 1) =~= y@.take(i as int).push(y@[i as int]));
        i += 1;
    }
    assert(x@.take(i as int) =~= x@);
    assert(y@.take(i as int) =~= y@);
    true
}

/// `a` followed by `b`.
pub fn join2(a: &str, b: &str) -> (s: String)
    ensures
        s@ == a@ + b@,
{
    let mut s = a.to_string();
    s.append(b);
    s
}

/// `a`, `b` and `c` one after the other.
pub fn join3(a: &str, b: &str, c: &str) -> (s: String)
    ensures
        s@ == a@ + b@ + c@,
{
    let mut s = join2(a, b);
    s.append(c);
    s
}

// Numbers, written.

/// The character of the digit `d` in bases up to sixteen, in lower case.
pub open spec fn digit_char(d: int) -> char {
    if d < 10 {
        (48 + d) as char
    } else {
        (87 + d) as char
    }
}

/// The decimal notation of `n`, without leading zeros.
pub open spec fn decimal(n: nat) -> Seq<char>
    decreases n,
{
    if n < 10 {
        seq![digit_char(n as int)]
    } else {
        decimal(n / 10).push(digit_char((n % 10) as int))
    }
}

/// `s` with zeros in front so that it has at least `width` characters.
pub open spec fn zero_padded(s: Seq<char>, width: nat) -> Seq<char> {
    if s.len() >= width {
        s
    } else {
        Seq::new((width - s.len()) as nat, |i: int| '0') + s
    }
}

/// The hexadecimal notation of `n` in four lower-case digits.
pub open spec fn hex4(n: u16) -> Seq<char> {
    seq![
        digit_char(n as int / 4096),
        digit_char(n as int / 256 % 16),
        digit_char(n as int / 16 % 16),
        digit_char(n as int % 16),
    ]
}

fn digit(d: u8) -> (c: char)
    requires
        d < 16,
    ensures
        c == digit_char(d as int),
{
    if d < 10 {
        (48 + d) as char
    } else {
        (87 + d) as char
    }
}

/// Appends the decimal notation of `n`.
pub fn push_decimal(out: &mut String, n: u128)
    ensures
        final(out)@ == old(out)@ + decimal(n as nat),
    decreases n,
{
    if n >= 10 {
        push_decimal(out, n / 10);
    }
    out.push(digit((n % 10) as u8));
}

/// Appends the decimal notation of `n`, padded with zeros to `width` characters.
pub fn push_padded(out: &mut String, n: u64, width: usize)
    ensures
        final(out)@ == old(out)@ + zero_padded(decimal(n as nat), width as nat),
{
    let mut digits = String::new();
    push_decimal(&mut digits, n as u128);
    let have: usize = digits.as_str().unicode_len();
    let ghost start = out@;
    let mut have_now: usize = have;
    while have_now < width
        invariant
            have <= have_now,
            have_now <= width || have_now == have,
            out@ == start + Seq::new((have_now - have) as nat, |i: int| '0'),
        decreases width - have_now,
    {
        out.push('0');
        have_now += 1;
    }
    out.append(digits.as_str());
    assert(out@ =~= start + zero_padded(decimal(n as nat), width as nat));
}

/// Appends `n` in four hexadecimal digits.
pub fn push_hex4(out: &mut String, n: u16)
    ensures
        final(out)@ == old(out)@ + hex4(n),
{
    out.push(digit((n / 4096) as u8));
    out.push(digit((n / 256 % 16) as u8));
    out.push(digit((n / 16 % 16) as u8));
    out.push(digit((n % 16) as u8));
}

// Searching.

/// Where `pat` first occurs in `s` at or after position `from`.
pub open spec fn find_from<T>(s: Seq<T>, pat: Seq<T>, from: int) -> Option<int>
    decreases s.len() + 1 - from,
{
    if from < 0 || from + pat.len() > s.len() {
        None
    } else if s.subrange(from, from + pat.len()) == pat {
        Some(from)
    } else {
        find_from(s, pat, from + 1)
    }
}

/// Where `pat` first occurs in `s`.
pub open spec fn find<T>(s: Seq<T>, pat: Seq<T>) -> Option<int> {
    find_from(s, pat, 0)
}

/// What `find_from` returns is an occurrence, and the first one.
pub proof fn find_from_is_first<T>(s: Seq<T>, pat: Seq<T>, from: int)
    requires
        0 <= from,
    ensures
        find_from(s, pat, from) matches Some(i) ==> from <= i && i + pat.len() <= s.len()
            && s.subrange(i, i + pat.len()) == pat,
        find_from(s, pat, from) matches Some(i) ==> forall|j: int|
            from <= j < i ==> #[trigger] s.subrange(j, j + pat.len()) != pat,
        find_from(s, pat, from) is None ==> forall|j: int|
            from <= j && j + pat.len() <= s.len() ==> #[trigger] s.subrange(j, j + pat.len()) != pat,
    decreases s.len() + 1 - from,
{
    if from + pat.len() <= s.len() && s.subrange(from, from + pat.len()) != pat {
        find_from_is_first(s, pat, from + 1);
    }
}

/// An occurrence that was found stays the first one when more is appended.
pub proof fn find_from_extends<T>(s: Seq<T>, more: Seq<T>, pat: Seq<T>, from: int)
    requires
        0 <= from,
        find_from(s, pat, from) is Some,
    ensures
        find_from(s + more, pat, from) == find_from(s, pat, from),
    decreases s.len() + 1 - from,
{
    assert((s + more).subrange(from, from + pat.len()) =~= s.subrange(from, from + pat.len()));
    if s.subrange(from, from + pat.len()) != pat {
        find_from_extends(s, more, pat, from + 1);
    }
}

fn bytes_at(s: &[u8], pat: &[u8], at: usize) -> (here: bool)
    requires
        at + pat@.len() <= s@.len(),
    ensures
        here == (s@.subrange(at as int, at + pat@.len()) == pat@),
{
    let len: usize = s.len();
    let mut i: usize = 0;
    while i < pat.len()
        invariant
            i <= pat@.len(),
            at + pat@.len() <= s@.len(),
            len == s@.len(),
            forall|j: int| 0 <= j < i ==> s@[at + j] == pat@[j],
        decreases pat@.len() - i,
    {
        if s[at + i] != pat[i] {
            assert(s@.subrange(at as int, at + pat@.len())[i as int] == s@[at + i]);
            return false;
        }
        i += 1;
    }
    assert(s@.subrange(at as int, at + pat@.len()) =~= pat@);
    true
}

/// Where `pat` first occurs in the bytes `s`.
pub fn find_bytes(s: &[u8], pat: &[u8]) -> (at: Option<usize>)
    ensures
        at matches Some(i) ==> find(s@, pat@) == Some(i as int) && i + pat@.len() <= s@.len()
            <= usize::MAX,
        at is None ==> find(s@, pat@) is None,
{
    let mut i: usize = 0;
    while i <= s.len() && pat.len() <= s.len() - i
        invariant
            i <= s@.len() + 1,
            find(s@, pat@) == find_from(s@, pat@, i as int),
        decreases s@.len() + 1 - i,
    {
        if bytes_at(s, pat, i) {
            return Some(i);
        }
        if i == s.len() {
            assert(find_from(s@, pat@, i + 1) is None);
            return None;
        }
        i += 1;
    }
    None
}

fn chars_at(s: &[char], pat: &[char], at: usize) -> (here: bool)
    requires
        at + pat@.len() <= s@.len(),
    ensures
        here == (s@.subrange(at as int, at + pat@.len()) == pat@),
{
    let len: usize = s.len();
    let mut i: usize = 0;
    while i < pat.len()
        invariant
            i <= pat@.len(),
            at + pat@.len() <= s@.len(),
            len == s@.len(),
            forall|j: int| 0 <= j < i ==> s@[at + j] == pat@[j],
        decreases pat@.len() - i,
    {
        if s[at + i] != pat[i] {
            assert(s@.subrange(at as int, at + pat@.len())[i as int] == s@[at + i]);
            return false;
        }
        i += 1;
    }
    assert(s@.subrange(at as int, at + pat@.len()) =~= pat@);
    true
}

/// Where `pat` first occurs in the characters `s`.
pub fn find_chars(s: &[char], pat: &[char]) -> (at: Option<usize>)
    ensures
        at matches Some(i) ==> find(s@, pat@) == Some(i as int),
        at is None ==> find(s@, pat@) is None,
{
    let mut i: usize = 0;
    while i <= s.len() && pat.len() <= s.len() - i
        invariant
            i <= s@.len() + 1,
            find(s@, pat@) == find_from(s@, pat@, i as int),
        decreases s@.len() + 1 - i,
    {
        if chars_at(s, pat, i) {
            return Some(i);
        }
        if i == s.len() {
            assert(find_from(s@, pat@, i + 1) is None);
            return None;
        }
        i += 1;
    }
    None
}

/// Whether `s` begins with `prefix`.
pub open spec fn begins_with(s: Seq<char>, prefix: Seq<char>) -> bool {
    prefix.len() <= s.len() && s.take(prefix.len() as int) == prefix
}

/// Whether the characters `s` begin with `prefix`.
pub fn begins(s: &[char], prefix: &[char]) -> (yes: bool)
    ensures
        yes == begins_with(s@, prefix@),
{
    if prefix.len() <= s.len() {
        assert(s@.take(prefix@.len() as int) =~= s@.subrange(0, prefix@.len() as int));
        chars_at(s, prefix, 0)
    } else {
        false
    }
}

/// Whether two runs of characters are the same.
pub fn same_chars(a: &[char], b: &[char]) -> (same: bool)
    ensures
        same == (a@ == b@),
{
    if a.len() == b.len() {
        assert(a@.subrange(0, b@.len() as int) =~= a@);
        chars_at(a, b, 0)
    } else {
        false
    }
}

// White space.

/// The characters with the Unicode property `White_Space`.
pub open spec fn is_white(c: char) -> bool {
    let n = c as int;
    ||| 0x9 <= n <= 0xd
    ||| n == 0x20
    ||| n == 0x85
    ||| n == 0xa0
    ||| n == 0x1680
    ||| 0x2000 <= n <= 0x200a
    ||| n == 0x2028
    ||| n == 0x2029
    ||| n == 0x202f
    ||| n == 0x205f
    ||| n == 0x3000
}

/// `s` without the white space in front.
pub open spec fn trim_start(s: Seq<char>) -> Seq<char>
    decreases s.len(),
{
    if s.len() > 0 && is_white(s[0]) {
        trim_start(s.skip(1))
    } else {
        s
    }
}

/// `s` without the white space at its end.
pub open spec fn trim_end(s: Seq<char>) -> Seq<char>
    decreases s.len(),
{
    if s.len() > 0 && is_white(s.last()) {
        trim_end(s.drop_last())
    } else {
        s
    }
}

/// `s` without the white space on either side.
pub open spec fn trimmed(s: Seq<char>) -> Seq<char> {
    trim_end(trim_start(s))
}

fn white(c: char) -> (yes: bool)
    ensures
        yes == is_white(c),
{
    let n: u32 = c as u32;
    (0x9 <= n && n <= 0xd) || n == 0x20 || n == 0x85 || n == 0xa0 || n == 0x1680 || (0x2000 <= n
        && n <= 0x200a) || n == 0x2028 || n == 0x2029 || n == 0x202f || n == 0x205f || n == 0x3000
}

/// The characters after the white space in front.
pub fn skip_white(s: &[char]) -> (rest: &[char])
    ensures
        rest@ == trim_start(s@),
{
    let mut i: usize = 0;
    assert(s@.skip(0) =~= s@);
    while i < s.len() && white(s[i])
        invariant
            i <= s@.len(),
            trim_start(s@) == trim_start(s@.skip(i as int)),
        decreases s@.len() - i,
    {
        assert(s@.skip(i as int).skip(1) =~= s@.skip(i + 1));
        i += 1;
    }
    assert(s@.subrange(i as int, s@.len() as int) =~= s@.skip(i as int));
    slice_subrange(s, i, s.len())
}

/// The characters between the white space on either side.
pub fn trim(s: &[char]) -> (middle: &[char])
    ensures
        middle@ == trimmed(s@),
{
    let rest = skip_white(s);
    let mut n: usize = rest.len();
    assert(rest@.take(n as int) =~= rest@);
    while n > 0 && white(rest[n - 1])
        invariant
            n <= rest@.len(),
            trim_end(rest@) == trim_end(rest@.take(n as int)),
        decreases n,
    {
        assert(rest@.take(n as int).drop_last() =~= rest@.take(n - 1));
        n -= 1;
    }
    assert(rest@.subrange(0, n as int) =~= rest@.take(n as int));
    slice_subrange(rest, 0, n)
}

proof fn trimmed_front_is_part(s: Seq<char>, i: int)
    requires
        0 <= i < trim_start(s).len(),
    ensures
        trim_start(s).len() <= s.len(),
        trim_start(s)[i] == s[s.len() - trim_start(s).len() + i],
    decreases s.len(),
{
    if s.len() > 0 && is_white(s[0]) {
        trimmed_front_is_part(s.skip(1), i);
    }
}

proof fn trimmed_end_is_front(s: Seq<char>)
    ensures
        begins_with(s, trim_end(s)),
    decreases s.len(),
{
    if s.len() > 0 && is_white(s.last()) {
        trimmed_end_is_front(s.drop_last());
        let n = trim_end(s).len() as int;
        assert(s.drop_last().take(n) =~= s.take(n));
    } else {
        assert(s.take(s.len() as int) =~= s);
    }
}

/// What is left of text that ends with white space is part of the text without its last character.
pub proof fn trimmed_is_inside(s: Seq<char>, i: int)
    requires
        s.len() > 0,
        is_white(s.last()),
        0 <= i < trimmed(s).len(),
    ensures
        s.drop_last().contains(trimmed(s)[i]),
{
    let rest = trim_start(s);
    trimmed_end_is_front(rest);
    assert(rest.len() > 0);
    trimmed_front_is_part(s, rest.len() - 1);
    assert(rest.last() == s.last());
    trimmed_end_is_front(rest.drop_last());
    let n = trimmed(s).len() as int;
    assert(rest.drop_last().take(n)[i] == rest[i]);
    trimmed_front_is_part(s, i);
    let k = s.len() - rest.len() + i;
    assert(s.drop_last()[k] == trimmed(s)[i]);
}

/// The longest run of characters at the front of `s` that holds no white space.
pub open spec fn leading_word(s: Seq<char>) -> Seq<char>
    decreases s.len(),
{
    if s.len() == 0 || is_white(s[0]) {
        seq![]
    } else {
        seq![s[0]] + leading_word(s.skip(1))
    }
}

/// The second of the words that white space sets apart, empty where there is none.
pub open spec fn second_word(s: Seq<char>) -> Seq<char> {
    let from_first = trim_start(s);
    let after_first = from_first.skip(leading_word(from_first).len() as int);
    leading_word(trim_start(after_first))
}

proof fn leading_word_is_prefix(s: Seq<char>)
    ensures
        begins_with(s, leading_word(s)),
    decreases s.len(),
{
    if s.len() > 0 && !is_white(s[0]) {
        leading_word_is_prefix(s.skip(1));
        let rest = leading_word(s.skip(1));
        assert(s.take(1 + rest.len() as int) =~= seq![s[0]] + s.skip(1).take(rest.len() as int));
    } else {
        assert(s.take(0) =~= seq![]);
    }
}

fn word_len(s: &[char]) -> (n: usize)
    ensures
        n == leading_word(s@).len(),
        n <= s@.len(),
{
    let mut i: usize = 0;
    assert(s@.skip(0) =~= s@);
    while i < s.len() && !white(s[i])
        invariant
            i <= s@.len(),
            leading_word(s@).len() == i + leading_word(s@.skip(i as int)).len(),
        decreases s@.len() - i,
    {
        assert(s@.skip(i as int).skip(1) =~= s@.skip(i + 1));
        i += 1;
    }
    i
}

/// The second word of `s`.
pub fn word_two(s: &[char]) -> (word: &[char])
    ensures
        word@ == second_word(s@),
{
    let from_first = skip_white(s);
    let n: usize = word_len(from_first);
    assert(from_first@.subrange(n as int, from_first@.len() as int) =~= from_first@.skip(n as int));
    let second = skip_white(slice_subrange(from_first, n, from_first.len()));
    let m: usize = word_len(second);
    proof {
        leading_word_is_prefix(second@);
    }
    assert(second@.subrange(0, m as int) =~= second@.take(m as int));
    slice_subrange(second, 0, m)
}

// Letter case.

/// `c`, in lower case where it is an ASCII letter.
pub open spec fn lower(c: char) -> char {
    if 'A' <= c <= 'Z' {
        (c as int + 32) as char
    } else {
        c
    }
}

/// `s` with its ASCII letters in lower case.
pub open spec fn lowercase(s: Seq<char>) -> Seq<char> {
    s.map_values(|c: char| lower(c))
}

/// `s` with its ASCII letters in lower case.
pub fn to_lower(s: &[char]) -> (low: Vec<char>)
    ensures
        low@ == lowercase(s@),
{
    let mut low: Vec<char> = Vec::new();
    let mut i: usize = 0;
    while i < s.len()
        invariant
            i <= s@.len(),
            low@ == lowercase(s@.take(i as int)),
        decreases s@.len() - i,
    {
        let c = s[i];
        if 'A' <= c && c <= 'Z' {
            low.push((c as u8 + 32) as char);
        } else {
            low.push(c);
        }
        assert(s@.take(i + 1) =~= s@.take(i as int).push(c));
        i += 1;
    }
    assert(s@.take(i as int) =~= s@);
    low
}

// Numbers, read.

/// The value of `c` as a digit in `radix`; letters of either case count from ten.
pub open spec fn digit_value(c: char, radix: int) -> Option<int> {
    let v = if '0' <= c <= '9' {
        c as int - 48
    } else if 'a' <= c <= 'z' {
        c as int - 87
    } else if 'A' <= c <= 'Z' {
        c as int - 55
    } else {
        radix
    };
    if v < radix {
        Some(v)
    } else {
        None
    }
}

/// The number that the digits `s` stand for, if each of them is one.
pub open spec fn digits_value(s: Seq<char>, radix: int) -> Option<int>
    decreases s.len(),
{
    if s.len() == 0 {
        Some(0)
    } else {
        match (digits_value(s.drop_last(), radix), digit_value(s.last(), radix)) {
            (Some(head), Some(d)) => Some(head * radix + d),
            _ => None,
        }
    }
}

/// The number up to `max` that `s` denotes: one digit or more, after one plus sign at most.
pub open spec fn number(s: Seq<char>, radix: int, max: int) -> Option<int> {
    let digits = if s.len() > 0 && s[0] == '+' {
        s.skip(1)
    } else {
        s
    };
    if digits.len() == 0 {
        None
    } else {
        match digits_value(digits, radix) {
            Some(n) => if n <= max {
                Some(n)
            } else {
                None
            },
            None => None,
        }
    }
}

proof fn digits_value_bounds(s: Seq<char>, k: int, radix: int)
    requires
        0 <= k <= s.len(),
        2 <= radix <= 36,
    ensures
        digits_value(s.take(k), radix) is None ==> digits_value(s, radix) is None,
        digits_value(s, radix) matches Some(n) ==> (digits_value(s.take(k), radix) matches Some(m)
            && 0 <= m <= n),
    decreases s.len(),
{
    if k < s.len() {
        assert(s.drop_last().take(k) =~= s.take(k));
        digits_value_bounds(s.drop_last(), k, radix);
        if let Some(n) = digits_value(s, radix) {
            let h = digits_value(s.drop_last(), radix)->0;
            assert(h * radix >= h) by (nonlinear_arith)
                requires
                    h >= 0,
                    radix >= 1,
            ;
        }
    } else {
        assert(s.take(k) =~= s);
        if s.len() > 0 {
            assert(s.drop_last().take(k - 1) =~= s.drop_last());
            digits_value_bounds(s.drop_last(), k - 1, radix);
            if let Some(n) = digits_value(s, radix) {
                let h = digits_value(s.drop_last(), radix)->0;
                assert(h * radix >= 0) by (nonlinear_arith)
                    requires
                        h >= 0,
                        radix >= 1,
                ;
            }
        }
    }
}

fn digit_of(c: char, radix: u64) -> (d: Option<u64>)
    requires
        2 <= radix <= 36,
    ensures
        d matches Some(v) ==> digit_value(c, radix as int) == Some(v as int) && v < radix,
        d is None ==> digit_value(c, radix as int) is None,
{
    let n: u32 = c as u32;
    let v: u64 = if '0' <= c && c <= '9' {
        (n - 48) as u64
    } else if 'a' <= c && c <= 'z' {
        (n - 87) as u64
    } else if 'A' <= c && c <= 'Z' {
        (n - 55) as u64
    } else {
        radix
    };
    if v < radix {
        Some(v)
    } else {
        None
    }
}

/// The number up to `max` that `s` denotes in `radix`.
pub fn read_number(s: &[char], radix: u64, max: u64) -> (n: Option<u64>)
    requires
        2 <= radix <= 36,
    ensures
        n matches Some(v) ==> number(s@, radix as int, max as int) == Some(v as int) && v <= max,
        n is None ==> number(s@, radix as int, max as int) is None,
{
    let signed = s.len() > 0 && s[0] == '+';
    let digits = if signed {
        assert(s@.subrange(1, s@.len() as int) =~= s@.skip(1));
        slice_subrange(s, 1, s.len())
    } else {
        s
    };
    if digits.len() == 0 {
        return None;
    }
    let mut value: u64 = 0;
    let mut i: usize = 0;
    assert(digits@.take(0) =~= seq![]);
    while i < digits.len()
        invariant
            i <= digits@.len(),
            2 <= radix <= 36,
            value <= max,
            digits_value(digits@.take(i as int), radix as int) == Some(value as int),
            digits@.len() > 0,
            number(s@, radix as int, max as int) == (match digits_value(digits@, radix as int) {
                Some(n) => if n <= max {
                    Some(n)
                } else {
                    None
                },
                None => None,
            }),
        decreases digits@.len() - i,
    {
        let ghost upto = digits@.take(i + 1);
        assert(upto.drop_last() =~= digits@.take(i as int));
        proof {
            digits_value_bounds(digits@, i + 1, radix as int);
        }
        match digit_of(digits[i], radix) {
            Some(d) => {
                assert(value as int * radix as int <= u64::MAX as int * 36) by (nonlinear_arith)
                    requires
                        value <= u64::MAX,
                        2 <= radix <= 36,
                ;
                assert(value as int * radix as int >= 0) by (nonlinear_arith)
                    requires
                        value >= 0,
                        radix >= 2,
                ;
                let next: u128 = value as u128 * radix as u128 + d as u128;
                if next > max as u128 {
                    return None;
                }
                value = next as u64;
            },
            None => {
                return None;
            },
        }
        i += 1;
    }
    assert(digits@.take(i as int) =~= digits@);
    Some(value)
}

/// The decimal notation of a number reads back as that number.
pub proof fn decimal_reads_back(n: nat, max: int)
    requires
        n <= max,
    ensures
        number(decimal(n), 10, max) == Some(n as int),
{
    decimal_digits(n);
    assert(decimal(n)[0] != '+');
}

/// The decimal notation of a number is made of digits, and these have its value.
pub proof fn decimal_digits(n: nat)
    ensures
        decimal(n).len() > 0,
        forall|i: int| 0 <= i < decimal(n).len() ==> '0' <= #[trigger] decimal(n)[i] <= '9',
        digits_value(decimal(n), 10) == Some(n as int),
    decreases n,
{
    if n < 10 {
        assert(decimal(n).drop_last() =~= seq![]);
        assert(digits_value(decimal(n).drop_last(), 10) == Some(0int));
    } else {
        decimal_digits(n / 10);
        assert(decimal(n).drop_last() =~= decimal(n / 10));
    }
}

// Splitting.

/// A line end as the network protocols write it.
pub open spec fn crlf() -> Seq<char> {
    seq!['\r', '\n']
}

/// What the line ends of `s` set apart; at least one piece, which may be empty.
pub open spec fn lines_of(s: Seq<char>) -> Seq<Seq<char>>
    decreases s.len(),
    via lines_of_decreases
{
    match find(s, crlf()) {
        Some(i) => seq![s.take(i)] + lines_of(s.skip(i + 2)),
        None => seq![s],
    }
}

#[via_fn]
proof fn lines_of_decreases(s: Seq<char>) {
    find_from_is_first(s, crlf(), 0);
}

proof fn white_front_goes(before: Seq<char>, rest: Seq<char>)
    requires
        forall|i: int| 0 <= i < before.len() ==> is_white(#[trigger] before[i]),
    ensures
        trim_start(before + rest) == trim_start(rest),
    decreases before.len(),
{
    if before.len() == 0 {
        assert(before + rest =~= rest);
    } else {
        assert((before + rest)[0] == before[0]);
        assert((before + rest).skip(1) =~= before.skip(1) + rest);
        assert forall|i: int| 0 <= i < before.skip(1).len() implies is_white(
            #[trigger] before.skip(1)[i],
        ) by {
            assert(is_white(before[i + 1]));
        }
        white_front_goes(before.skip(1), rest);
    }
}

proof fn white_end_goes(rest: Seq<char>, after: Seq<char>)
    requires
        forall|i: int| 0 <= i < after.len() ==> is_white(#[trigger] after[i]),
    ensures
        trim_end(rest + after) == trim_end(rest),
    decreases after.len(),
{
    if after.len() == 0 {
        assert(rest + after =~= rest);
    } else {
        assert((rest + after).last() == after.last());
        assert((rest + after).drop_last() =~= rest + after.drop_last());
        assert(is_white(after[after.len() - 1]));
        white_end_goes(rest, after.drop_last());
    }
}

/// Trimming takes away the white space on either side and nothing else.
pub proof fn space_around_is_trimmed(before: Seq<char>, middle: Seq<char>, after: Seq<char>)
    requires
        forall|i: int| 0 <= i < before.len() ==> is_white(#[trigger] before[i]),
        forall|i: int| 0 <= i < after.len() ==> is_white(#[trigger] after[i]),
        middle.len() > 0 ==> !is_white(middle[0]) && !is_white(middle[middle.len() - 1]),
    ensures
        trimmed(before + middle + after) == middle,
{
    assert(before + middle + after =~= before + (middle + after));
    white_front_goes(before, middle + after);
    if middle.len() == 0 {
        assert(middle + after =~= after);
        white_front_goes(after, seq![]);
        assert(after + Seq::<char>::empty() =~= after);
        assert(trim_start(Seq::<char>::empty()) =~= middle);
    } else {
        assert((middle + after)[0] == middle[0]);
        white_end_goes(middle, after);
    }
}

proof fn word_at_front(word: Seq<char>, rest: Seq<char>)
    requires
        forall|i: int| 0 <= i < word.len() ==> !is_white(#[trigger] word[i]),
        rest.len() > 0 ==> is_white(rest[0]),
    ensures
        leading_word(word + rest) == word,
    decreases word.len(),
{
    if word.len() == 0 {
        assert(word + rest =~= rest);
        assert(leading_word(rest) =~= word);
    } else {
        assert((word + rest)[0] == word[0]);
        assert((word + rest).skip(1) =~= word.skip(1) + rest);
        assert forall|i: int| 0 <= i < word.skip(1).len() implies !is_white(
            #[trigger] word.skip(1)[i],
        ) by {
            assert(!is_white(word[i + 1]));
        }
        word_at_front(word.skip(1), rest);
        assert(seq![word[0]] + word.skip(1) =~= word);
    }
}

/// The second word is what stands between the white space after the first word and the next white
/// space, or the end. It is empty where there is no second word.
pub proof fn second_word_is_found(
    before: Seq<char>,
    first: Seq<char>,
    gap: Seq<char>,
    second: Seq<char>,
    after: Seq<char>,
)
    requires
        forall|i: int| 0 <= i < before.len() ==> is_white(#[trigger] before[i]),
        forall|i: int| 0 <= i < first.len() ==> !is_white(#[trigger] first[i]),
        forall|i: int| 0 <= i < gap.len() ==> is_white(#[trigger] gap[i]),
        forall|i: int| 0 <= i < second.len() ==> !is_white(#[trigger] second[i]),
        first.len() > 0,
        gap.len() > 0 || second.len() == 0,
        after.len() > 0 ==> second.len() > 0 && is_white(after[0]),
    ensures
        second_word(before + first + gap + second + after) == second,
{
    let tail = gap + (second + after);
    assert(before + first + gap + second + after =~= before + (first + tail));
    white_front_goes(before, first + tail);
    assert((first + tail)[0] == first[0]);
    assert(tail.len() > 0 ==> is_white(tail[0])) by {
        if gap.len() > 0 {
            assert(tail[0] == gap[0]);
        }
    }
    word_at_front(first, tail);
    assert((first + tail).skip(first.len() as int) =~= tail);
    white_front_goes(gap, second + after);
    if second.len() > 0 {
        assert((second + after)[0] == second[0]);
    } else {
        assert(second + after =~= seq![]);
    }
    word_at_front(second, after);
}

/// In white space there is no second word.
pub proof fn white_text_has_no_words(s: Seq<char>)
    requires
        forall|i: int| 0 <= i < s.len() ==> is_white(#[trigger] s[i]),
    ensures
        second_word(s) == Seq::<char>::empty(),
{
    white_front_goes(s, seq![]);
    assert(s + Seq::<char>::empty() =~= s);
    let none = trim_start(s);
    assert(none =~= seq![]);
    assert(leading_word(none) =~= seq![]);
    assert(none.skip(0) =~= seq![]);
}

/// The letters of the ASCII alphabet become the ones of the other case, and nothing else changes.
pub proof fn letters_are_lowered(s: Seq<char>, i: int, k: int)
    requires
        0 <= i < s.len(),
        0 <= k < 26,
    ensures
        ({
            let upper = "ABCDEFGHIJKLMNOPQRSTUVWXYZ"@;
            let small = "abcdefghijklmnopqrstuvwxyz"@;
            &&& lowercase(s).len() == s.len()
            &&& s[i] == upper[k] ==> lowercase(s)[i] == small[k]
            &&& !upper.contains(s[i]) ==> lowercase(s)[i] == s[i]
        }),
{
    reveal_strlit("ABCDEFGHIJKLMNOPQRSTUVWXYZ");
    reveal_strlit("abcdefghijklmnopqrstuvwxyz");
    let upper = "ABCDEFGHIJKLMNOPQRSTUVWXYZ"@;
    let c = s[i];
    if 'A' <= c <= 'Z' {
        assert(upper[c as int - 65] == c);
    }
}

/// The digits are written with the sixteen characters of the hexadecimal notation.
pub proof fn digits_have_their_characters(d: int)
    requires
        0 <= d < 16,
    ensures
        digit_char(d) == "0123456789abcdef"@[d],
{
    reveal_strlit("0123456789abcdef");
}

/// Padding puts zeros in front, as many as are missing.
pub proof fn padding_adds_zeros(s: Seq<char>, width: nat, i: int)
    ensures
        ({
            let out = zero_padded(s, width);
            &&& out.len() >= width && out.len() >= s.len()
            &&& out.len() == width || out.len() == s.len()
            &&& out.skip(out.len() - s.len()) == s
            &&& 0 <= i < out.len() - s.len() ==> out[i] == '0'
        }),
{
    let out = zero_padded(s, width);
    assert(out.skip(out.len() - s.len()) =~= s);
}

/// The notation of `n` in `radix`, without leading zeros.
pub open spec fn notation(n: nat, radix: nat) -> Seq<char>
    decreases n,
    via notation_decreases
{
    if radix < 2 || n < radix {
        seq![digit_char(n as int)]
    } else {
        notation(n / radix, radix).push(digit_char((n % radix) as int))
    }
}

#[via_fn]
proof fn notation_decreases(n: nat, radix: nat) {
    if n >= radix >= 2 {
        assert(n / radix < n) by (nonlinear_arith)
            requires
                n >= radix >= 2,
        ;
    }
}

proof fn notation_has_digits(n: nat, radix: nat)
    requires
        2 <= radix <= 16,
    ensures
        notation(n, radix).len() > 0,
        notation(n, radix)[0] != '+',
        digits_value(notation(n, radix), radix as int) == Some(n as int),
    decreases n,
{
    let s = notation(n, radix);
    if n < radix {
        assert(s.drop_last() =~= seq![]);
        assert(digits_value(s.drop_last(), radix as int) == Some(0int));
        assert(0 * radix as int == 0) by (nonlinear_arith);
    } else {
        assert(n / radix < n) by (nonlinear_arith)
            requires
                n >= radix >= 2,
        ;
        notation_has_digits(n / radix, radix);
        assert(s.drop_last() =~= notation(n / radix, radix));
        assert((n / radix) * radix + n % radix == n) by (nonlinear_arith)
            requires
                radix >= 2,
        ;
        assert(n % radix < radix) by (nonlinear_arith)
            requires
                radix >= 2,
        ;
    }
}

proof fn leading_zeros_do_not_count(zeros: nat, s: Seq<char>, radix: int)
    requires
        2 <= radix <= 16,
    ensures
        digits_value(Seq::new(zeros, |i: int| '0') + s, radix) == digits_value(s, radix),
    decreases zeros + s.len(),
{
    let front = Seq::new(zeros, |i: int| '0');
    if s.len() == 0 {
        assert(front + s =~= front);
        if zeros > 0 {
            let fewer = Seq::new((zeros - 1) as nat, |i: int| '0');
            assert(front.drop_last() =~= fewer);
            leading_zeros_do_not_count((zeros - 1) as nat, s, radix);
            assert(fewer + s =~= fewer);
            assert(0 * radix == 0) by (nonlinear_arith);
        }
    } else {
        assert((front + s).drop_last() =~= front + s.drop_last());
        leading_zeros_do_not_count(zeros, s.drop_last(), radix);
    }
}

/// A number reads back from its notation, with or without a plus sign and zeros in front, as long
/// as it is not beyond `max`; beyond that there is no number.
pub proof fn notation_reads_back(n: nat, radix: nat, max: int, signed: bool, zeros: nat)
    requires
        2 <= radix <= 16,
    ensures
        ({
            let digits = Seq::new(zeros, |i: int| '0') + notation(n, radix);
            let s = if signed {
                seq!['+'] + digits
            } else {
                digits
            };
            number(s, radix as int, max) == (if n <= max {
                Some(n as int)
            } else {
                None
            })
        }),
{
    let digits = Seq::new(zeros, |i: int| '0') + notation(n, radix);
    notation_has_digits(n, radix);
    leading_zeros_do_not_count(zeros, notation(n, radix), radix as int);
    assert((seq!['+'] + digits).skip(1) =~= digits);
    assert(digits[0] != '+');
}

/// The decimal notation is the one with ten digits, and it has no leading zero.
pub proof fn decimal_is_the_notation(n: nat)
    ensures
        decimal(n) == notation(n, 10),
        n > 0 ==> decimal(n)[0] != '0',
    decreases n,
{
    if n >= 10 {
        decimal_is_the_notation(n / 10);
        decimal_digits(n / 10);
    }
}

proof fn bad_digit_spoils(s: Seq<char>, radix: int, i: int)
    requires
        0 <= i < s.len(),
        digit_value(s[i], radix) is None,
    ensures
        digits_value(s, radix) is None,
    decreases s.len(),
{
    if i < s.len() - 1 {
        bad_digit_spoils(s.drop_last(), radix, i);
    }
}

/// Nothing is a number without digits or with anything but digits after the sign, in decimal and
/// in hexadecimal notation.
pub proof fn numbers_are_made_of_digits(s: Seq<char>, max: int, i: int)
    requires
        0 <= i < s.len(),
        i == 0 ==> s[i] != '+',
    ensures
        number(Seq::<char>::empty(), 10, max) is None,
        number(Seq::<char>::empty(), 16, max) is None,
        number(seq!['+'], 10, max) is None,
        number(seq!['+'], 16, max) is None,
        !"0123456789"@.contains(s[i]) ==> number(s, 10, max) is None,
        !"0123456789abcdefABCDEF"@.contains(s[i]) ==> number(s, 16, max) is None,
{
    reveal_strlit("0123456789");
    reveal_strlit("0123456789abcdefABCDEF");
    assert(seq!['+'].skip(1) =~= seq![]);
    let c = s[i];
    let dec = "0123456789"@;
    let hex = "0123456789abcdefABCDEF"@;
    if '0' <= c <= '9' {
        assert(dec[c as int - 48] == c);
        assert(hex[c as int - 48] == c);
    }
    if 'a' <= c <= 'f' {
        assert(hex[c as int - 87] == c);
    }
    if 'A' <= c <= 'F' {
        assert(hex[c as int - 49] == c);
    }
    let digits = if s[0] == '+' {
        s.skip(1)
    } else {
        s
    };
    let k = if s[0] == '+' {
        i - 1
    } else {
        i
    };
    assert(digits[k] == c);
    if !dec.contains(c) {
        bad_digit_spoils(digits, 10, k);
    }
    if !hex.contains(c) {
        bad_digit_spoils(digits, 16, k);
    }
}

proof fn case_of_digits(s: Seq<char>, radix: int)
    ensures
        digits_value(lowercase(s), radix) == digits_value(s, radix),
    decreases s.len(),
{
    if s.len() > 0 {
        assert(lowercase(s).drop_last() =~= lowercase(s.drop_last()));
        case_of_digits(s.drop_last(), radix);
    }
}

/// The case of its letters does not matter to a number.
pub proof fn case_of_a_number_does_not_matter(s: Seq<char>, radix: int, max: int)
    ensures
        number(lowercase(s), radix, max) == number(s, radix, max),
{
    case_of_digits(s, radix);
    if s.len() > 0 {
        case_of_digits(s.skip(1), radix);
        assert(lowercase(s).skip(1) =~= lowercase(s.skip(1)));
    }
}

/// Four hexadecimal digits read back as the code that they show.
pub proof fn hex_code_reads_back(n: u16)
    ensures
        hex4(n).len() == 4,
        lowercase(hex4(n)) == hex4(n),
        number(hex4(n), 16, u16::MAX as int) == Some(n as int),
{
    let s = hex4(n);
    assert(lowercase(s) =~= s);
    reveal_with_fuel(digits_value, 5);
    assert(s.drop_last() =~= seq![s[0], s[1], s[2]]);
    assert(seq![s[0], s[1], s[2]].drop_last() =~= seq![s[0], s[1]]);
    assert(seq![s[0], s[1]].drop_last() =~= seq![s[0]]);
    assert(seq![s[0]].drop_last() =~= seq![]);
}

/// A text begins with a prefix exactly if it is the prefix followed by something.
pub proof fn prefix_is_followed_by_the_rest(prefix: Seq<char>, rest: Seq<char>, s: Seq<char>)
    ensures
        begins_with(prefix + rest, prefix),
        begins_with(s, prefix) ==> s == prefix + s.skip(prefix.len() as int),
{
    assert((prefix + rest).take(prefix.len() as int) =~= prefix);
    if begins_with(s, prefix) {
        assert(s =~= s.take(prefix.len() as int) + s.skip(prefix.len() as int));
    }
}

/// `lines` with line ends between them.
pub open spec fn joined(lines: Seq<Seq<char>>) -> Seq<char>
    decreases lines.len(),
{
    if lines.len() == 0 {
        seq![]
    } else if lines.len() == 1 {
        lines[0]
    } else {
        lines[0] + "\r\n"@ + joined(lines.skip(1))
    }
}

/// Splitting loses nothing: the lines, joined again, are the text, and none of them holds a line
/// end.
pub proof fn lines_join_back(s: Seq<char>)
    ensures
        lines_of(s).len() > 0,
        joined(lines_of(s)) == s,
        forall|i: int|
            0 <= i < lines_of(s).len() ==> find(#[trigger] lines_of(s)[i], "\r\n"@) is None,
    decreases s.len(),
{
    reveal_strlit("\r\n");
    assert("\r\n"@ =~= crlf());
    find_from_is_first(s, crlf(), 0);
    match find(s, crlf()) {
        None => {},
        Some(i) => {
            let rest = s.skip(i + 2);
            lines_join_back(rest);
            assert(lines_of(s).skip(1) =~= lines_of(rest));
            assert(s =~= s.take(i) + s.subrange(i, i + 2) + rest);
            let line = s.take(i);
            find_from_is_first(line, crlf(), 0);
            if let Some(j) = find(line, crlf()) {
                assert(line.subrange(j, j + 2) =~= s.subrange(j, j + 2));
            }
            assert forall|k: int| 0 <= k < lines_of(s).len() implies find(
                #[trigger] lines_of(s)[k],
                "\r\n"@,
            ) is None by {
                if k > 0 {
                    assert(lines_of(s)[k] == lines_of(rest)[k - 1]);
                }
            }
        },
    }
}

} // verus!
