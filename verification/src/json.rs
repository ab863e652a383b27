//! How JSON values are written, without white space, and how JSON strings are read.
use vstd::prelude::*;

use crate::text::{digit_char, digits_value};

verus! {

/// How a JSON string holds the character `c`.
pub open spec fn escaped_char(c: char) -> Seq<char> {
    let n = c as int;
    if c == '"' || c == '\\' {
        seq!['\\', c]
    } else if n == 8 {
        seq!['\\', 'b']
    } else if n == 9 {
        seq!['\\', 't']
    } else if n == 10 {
        seq!['\\', 'n']
    } else if n == 12 {
        seq!['\\', 'f']
    } else if n == 13 {
        seq!['\\', 'r']
    } else if n < 32 {
        seq!['\\', 'u', '0', '0', digit_char(n / 16), digit_char(n % 16)]
    } else {
        seq![c]
    }
}

/// How a JSON string holds the characters `s`.
pub open spec fn escaped(s: Seq<char>) -> Seq<char>
    decreases s.len(),
{
    if s.len() == 0 {
        seq![]
    } else {
        escaped(s.drop_last()) + escaped_char(s.last())
    }
}

/// The JSON string that holds `s`.
pub open spec fn json_string(s: Seq<char>) -> Seq<char> {
    seq!['"'] + escaped(s) + seq!['"']
}

/// `items` with commas between them.
pub open spec fn comma_separated(items: Seq<Seq<char>>) -> Seq<char>
    decreases items.len(),
{
    if items.len() == 0 {
        seq![]
    } else if items.len() == 1 {
        items[0]
    } else {
        comma_separated(items.drop_last()) + seq![','] + items.last()
    }
}

/// The JSON array of the values that are written as `items`.
pub open spec fn json_array(items: Seq<Seq<char>>) -> Seq<char> {
    seq!['['] + comma_separated(items) + seq![']']
}

/// The JSON object with the members `members`, each a name and how its value is written.
pub open spec fn json_object(members: Seq<(Seq<char>, Seq<char>)>) -> Seq<char> {
    seq!['{'] + comma_separated(
        members.map_values(|m: (Seq<char>, Seq<char>)| json_string(m.0) + seq![':'] + m.1),
    ) + seq!['}']
}

/// Whether `a` stands before `b` in the order of the characters.
pub open spec fn text_before(a: Seq<char>, b: Seq<char>) -> bool {
    exists|k: int|
        0 <= k <= a.len() && k < b.len() && a.take(k) == b.take(k) && (k == a.len()
            || #[trigger] a[k] < b[k])
}

/// The names of `members` ascend.
pub open spec fn names_ascend<V>(members: Seq<(String, V)>) -> bool {
    forall|i: int, j: int|
        0 <= i < j < members.len() ==> text_before(
            (#[trigger] members[i]).0@,
            (#[trigger] members[j]).0@,
        )
}

/// Whether a JSON string holds `s` as it is.
pub open spec fn is_plain(s: Seq<char>) -> bool {
    forall|i: int|
        0 <= i < s.len() ==> (#[trigger] s[i]) as int >= 32 && s[i] != '"' && s[i] != '\\'
}

/// Text without control characters, quotation marks and backslashes stands in a JSON string as
/// it is.
pub proof fn plain_text_is_verbatim(s: Seq<char>)
    requires
        is_plain(s),
    ensures
        json_string(s) == seq!['"'] + s + seq!['"'],
{
    plain_is_not_escaped(s);
}

proof fn plain_is_not_escaped(s: Seq<char>)
    requires
        is_plain(s),
    ensures
        escaped(s) == s,
    decreases s.len(),
{
    if s.len() > 0 {
        plain_is_not_escaped(s.drop_last());
        assert(s =~= s.drop_last() + seq![s.last()]);
    }
}

// Reading strings.

/// The number that the four hexadecimal digits at the front of `t` stand for.
pub open spec fn hex_value(t: Seq<char>) -> Option<int> {
    if t.len() < 4 {
        None
    } else {
        digits_value(t.take(4), 16)
    }
}

/// The first character that `t` stands for inside a JSON string, and how many characters write
/// it. A character beyond the first 65536 can be written as a pair of surrogates.
pub open spec fn first_char(t: Seq<char>) -> Option<(char, int)> {
    if t.len() == 0 || t[0] == '"' || (t[0] as int) < 32 {
        None
    } else if t[0] != '\\' {
        Some((t[0], 1))
    } else if t.len() < 2 {
        None
    } else if t[1] == '"' || t[1] == '\\' || t[1] == '/' {
        Some((t[1], 2))
    } else if t[1] == 'b' {
        Some((8u8 as char, 2))
    } else if t[1] == 't' {
        Some(('\t', 2))
    } else if t[1] == 'n' {
        Some(('\n', 2))
    } else if t[1] == 'f' {
        Some((12u8 as char, 2))
    } else if t[1] == 'r' {
        Some(('\r', 2))
    } else if t[1] != 'u' {
        None
    } else {
        match hex_value(t.skip(2)) {
            None => None,
            Some(n) => if n < 0xd800 || n > 0xdfff {
                Some((n as char, 6))
            } else if n > 0xdbff || t.len() < 12 || t[6] != '\\' || t[7] != 'u' {
                None
            } else {
                match hex_value(t.skip(8)) {
                    None => None,
                    Some(m) => if m < 0xdc00 || m > 0xdfff {
                        None
                    } else {
                        Some(((0x10000 + (n - 0xd800) * 0x400 + (m - 0xdc00)) as char, 12))
                    },
                }
            },
        }
    }
}

/// The text that `t` stands for up to the quotation mark that ends a JSON string, and what
/// follows that.
pub open spec fn read_inside(t: Seq<char>) -> Option<(Seq<char>, Seq<char>)>
    decreases t.len(),
{
    if t.len() > 0 && t[0] == '"' {
        Some((seq![], t.skip(1)))
    } else {
        match first_char(t) {
            None => None,
            Some((c, n)) => match read_inside(t.skip(n)) {
                None => None,
                Some((text, rest)) => Some((seq![c] + text, rest)),
            },
        }
    }
}

/// The text of the JSON string at the front of `t`, and what follows that.
pub open spec fn read_string(t: Seq<char>) -> Option<(Seq<char>, Seq<char>)> {
    if t.len() > 0 && t[0] == '"' {
        read_inside(t.skip(1))
    } else {
        None
    }
}

/// The text that `t` stands for inside a JSON string.
pub open spec fn unescaped(t: Seq<char>) -> Option<Seq<char>> {
    match read_inside(t.push('"')) {
        None => None,
        Some((text, rest)) => if rest.len() == 0 {
            Some(text)
        } else {
            None
        },
    }
}

proof fn char_reads_back(c: char, rest: Seq<char>)
    ensures
        (escaped_char(c) + rest)[0] != '"',
        first_char(escaped_char(c) + rest) == Some((c, escaped_char(c).len() as int)),
{
    let t = escaped_char(c) + rest;
    let n = c as int;
    if n < 32 && n != 8 && n != 9 && n != 10 && n != 12 && n != 13 {
        let digits = seq!['0', '0', digit_char(n / 16), digit_char(n % 16)];
        assert(t.skip(2).take(4) =~= digits);
        reveal_with_fuel(digits_value, 5);
        assert(digits.drop_last() =~= seq!['0', '0', digit_char(n / 16)]);
        assert(seq!['0', '0', digit_char(n / 16)].drop_last() =~= seq!['0', '0']);
        assert(seq!['0', '0'].drop_last() =~= seq!['0']);
        assert(seq!['0'].drop_last() =~= seq![]);
        assert(digits_value(digits, 16) == Some(n));
    }
}

proof fn escaped_from_front(s: Seq<char>)
    requires
        s.len() > 0,
    ensures
        escaped(s) == escaped_char(s[0]) + escaped(s.skip(1)),
    decreases s.len(),
{
    let init = s.drop_last();
    if s.len() == 1 {
        assert(escaped(init) =~= seq![]);
        assert(escaped(s.skip(1)) =~= seq![]);
        assert(escaped(s) =~= escaped_char(s[0]) + escaped(s.skip(1)));
    } else {
        escaped_from_front(init);
        assert(init.skip(1) =~= s.skip(1).drop_last());
        assert(escaped(s) =~= escaped_char(s[0]) + escaped(s.skip(1)));
    }
}

proof fn inside_reads_back(s: Seq<char>, rest: Seq<char>)
    ensures
        read_inside(escaped(s) + seq!['"'] + rest) == Some((s, rest)),
    decreases s.len(),
{
    let t = escaped(s) + seq!['"'] + rest;
    if s.len() == 0 {
        assert(t.skip(1) =~= rest);
    } else {
        escaped_from_front(s);
        let after = escaped(s.skip(1)) + seq!['"'] + rest;
        assert(t =~= escaped_char(s[0]) + after);
        char_reads_back(s[0], after);
        assert(t.skip(escaped_char(s[0]).len() as int) =~= after);
        inside_reads_back(s.skip(1), rest);
        assert(seq![s[0]] + s.skip(1) =~= s);
    }
}

/// A JSON string reads back as the text that it was written for, whatever characters that holds
/// and whatever follows the string.
pub proof fn string_reads_back(s: Seq<char>, rest: Seq<char>)
    ensures
        unescaped(escaped(s)) == Some(s),
        read_string(json_string(s) + rest) == Some((s, rest)),
{
    inside_reads_back(s, rest);
    assert((json_string(s) + rest).skip(1) =~= escaped(s) + seq!['"'] + rest);
    inside_reads_back(s, seq![]);
    assert(escaped(s).push('"') =~= escaped(s) + seq!['"'] + Seq::<char>::empty());
}

} // verus!
