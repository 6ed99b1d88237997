//! What holds of texts: how they are cut, compared and written.
use crate::ids;
use crate::text;
use vstd::prelude::*;

verus! {

/// The characters that count as white space are those with the Unicode property of that
/// name: control characters from tab to carriage return, spaces and line separators.
pub proof fn law_which_characters_are_white_space(c: char)
    ensures
        text::white_space(c) <==> {
            let n = c as u32;
            ||| n == 9 || n == 10 || n == 11 || n == 12 || n == 13
            ||| n == 32 || n == 133 || n == 160 || n == 5760
            ||| 8192 <= n <= 8202
            ||| n == 8232 || n == 8233 || n == 8239 || n == 8287 || n == 12288
        },
{
}

/// Trimming takes white space off both ends and nothing else: what is left is the part of
/// the text between, which neither begins nor ends with any.
pub proof fn law_trimming_takes_white_space_off(s: Seq<char>)
    ensures
        exists|a: int, b: int|
            #![trigger s.subrange(a, b)]
            0 <= a <= b <= s.len() && text::trimmed(s) == s.subrange(a, b) && text::blank(
                s.take(a),
            ) && text::blank(s.skip(b)),
        text::trimmed(s).len() > 0 ==> !text::white_space(text::trimmed(s)[0])
            && !text::white_space(text::trimmed(s).last()),
        text::trimmed(s).len() == 0 <==> text::blank(s),
{
    let front = text::trimmed_front(s);
    let a = lemma_front(s);
    let n = lemma_back(front);
    assert(text::trimmed(s) =~= s.subrange(a, a + n));
    assert(text::blank(s.skip(a + n))) by {
        assert(s.skip(a + n) =~= front.skip(n));
    }
    if n > 0 {
        assert(text::trimmed(s)[0] == front[0]);
    } else {
        assert forall|i: int| 0 <= i < s.len() implies text::white_space(#[trigger] s[i]) by {
            if i < a {
                assert(s.take(a)[i] == s[i]);
            } else {
                assert(s.skip(a + n)[i - a] == s[i]);
            }
        }
    }
    if text::blank(s) && n > 0 {
        assert(text::white_space(s[a]));
    }
}

proof fn lemma_front(s: Seq<char>) -> (a: int)
    ensures
        0 <= a <= s.len(),
        text::trimmed_front(s) == s.skip(a),
        text::blank(s.take(a)),
        a < s.len() ==> !text::white_space(s[a]),
    decreases s.len(),
{
    if s.len() > 0 && text::white_space(s[0]) {
        let rest = s.drop_first();
        let k = lemma_front(rest);
        assert(rest.skip(k) =~= s.skip(k + 1));
        assert forall|i: int| 0 <= i < k + 1 implies text::white_space(
            #[trigger] s.take(k + 1)[i],
        ) by {
            if i > 0 {
                assert(rest.take(k)[i - 1] == s[i]);
            }
        }
        k + 1
    } else {
        assert(s.skip(0) =~= s);
        0
    }
}

proof fn lemma_back(s: Seq<char>) -> (n: int)
    ensures
        0 <= n <= s.len(),
        text::trimmed_back(s) == s.take(n),
        text::blank(s.skip(n)),
        n > 0 ==> !text::white_space(s[n - 1]),
    decreases s.len(),
{
    if s.len() > 0 && text::white_space(s.last()) {
        let rest = s.drop_last();
        let n = lemma_back(rest);
        assert(rest.take(n) =~= s.take(n));
        assert forall|i: int| 0 <= i < s.skip(n).len() implies text::white_space(
            #[trigger] s.skip(n)[i],
        ) by {
            if n + i < rest.len() {
                assert(rest.skip(n)[i] == s[n + i]);
            }
        }
        n
    } else {
        assert(s.take(s.len() as int) =~= s);
        s.len() as int
    }
}

/// Every byte is written as two hexadecimal digits, the higher half first, in order.
pub proof fn law_bytes_are_written_in_order(bytes: Seq<u8>, i: int)
    requires
        0 <= i < bytes.len(),
    ensures
        text::hex(bytes).len() == 2 * bytes.len(),
        16 * digit_of(text::hex(bytes)[2 * i]) + digit_of(text::hex(bytes)[2 * i + 1])
            == bytes[i],
    decreases bytes.len(),
{
    let rest = bytes.drop_last();
    text::lemma_hex_length(bytes);
    text::lemma_hex_length(rest);
    if i < rest.len() {
        law_bytes_are_written_in_order(rest, i);
        assert(text::hex(bytes)[2 * i] == text::hex(rest)[2 * i]);
        assert(text::hex(bytes)[2 * i + 1] == text::hex(rest)[2 * i + 1]);
    }
}

/// The number that a hexadecimal digit in lower case stands for.
pub open spec fn digit_of(c: char) -> int {
    if '0' <= c && c <= '9' {
        c as int - '0' as int
    } else {
        c as int - 'a' as int + 10
    }
}

/// Of two texts that differ, the one with the smaller first differing byte comes first, or
/// the one that the other begins with.
pub proof fn law_which_bytes_come_first(a: Seq<u8>, b: Seq<u8>, n: int)
    requires
        0 <= n <= a.len(),
        n <= b.len(),
        a.take(n) == b.take(n),
    ensures
        n < a.len() && n < b.len() && a[n] < b[n] ==> text::bytes_before(a, b),
        n < a.len() && n < b.len() && a[n] > b[n] ==> !text::bytes_before(a, b),
        n == a.len() && n < b.len() ==> text::bytes_before(a, b),
        n == b.len() ==> !text::bytes_before(a, b),
    decreases n,
{
    if n > 0 {
        assert(a[0] == a.take(n)[0] && b[0] == b.take(n)[0]);
        assert(a.drop_first().take(n - 1) =~= a.take(n).drop_first());
        assert(b.drop_first().take(n - 1) =~= b.take(n).drop_first());
        law_which_bytes_come_first(a.drop_first(), b.drop_first(), n - 1);
    }
}

/// In upper case ASCII letters are capitals, and all else stays.
pub proof fn law_letters_become_capitals(s: Seq<char>, i: int)
    requires
        0 <= i < s.len(),
    ensures
        text::ascii_upper(s).len() == s.len(),
        'a' <= s[i] && s[i] <= 'z' ==> text::ascii_upper(s)[i] as int - 'A' as int == s[i] as int
            - 'a' as int,
        !('a' <= s[i] && s[i] <= 'z') ==> text::ascii_upper(s)[i] == s[i],
{
}

/// Numbers are written in decimal digits and can be read back.
pub proof fn law_numbers_can_be_read_back(n: int)
    ensures
        text::int_value(text::int_text(n)) == n,
        n < 0 <==> text::int_text(n)[0] == '-',
{
    text::lemma_int_text(n);
    if n >= 0 {
        text::lemma_nat_text(n as nat);
    }
}

/// A text without repetitions holds each of its texts once, and all that it held.
pub proof fn law_repetitions_are_dropped(list: Seq<Seq<char>>, s: Seq<char>)
    ensures
        text::distinct(list).no_duplicates(),
        text::distinct(list).contains(s) <==> list.contains(s),
{
    text::lemma_distinct(list);
}

/// Base-32 digits are told apart by what they stand for, except for their case; `I`, `L`,
/// `O` and `U` are none.
pub proof fn law_base_32_digits_are_apart(a: char, b: char)
    ensures
        ids::digit_value(a) is Some && ids::digit_value(a) == ids::digit_value(b)
            ==> text::upper(a) == text::upper(b),
        ids::digit_value(a) is Some ==> 0 <= ids::digit_value(a)->Some_0 < 32,
        ids::digit_value(a) == ids::digit_value(text::upper(a)),
        ids::digit_value(a) is Some ==> text::upper(a) != 'I' && text::upper(a) != 'L'
            && text::upper(a) != 'O' && text::upper(a) != 'U',
        ids::digit_value(a) is None && 'A' <= a && a <= 'Z' ==> a == 'I' || a == 'L' || a == 'O'
            || a == 'U',
        '0' <= a && a <= '9' ==> ids::digit_value(a) == Some(a as int - '0' as int),
        a < b && b <= 'Z' && ids::digit_value(a) is Some && ids::digit_value(b) is Some
            ==> ids::digit_value(a)->Some_0 < ids::digit_value(b)->Some_0,
{
}

/// An identifier is 26 base-32 digits; the first ten tell when it was made.
pub proof fn law_identifiers_tell_their_time(s: Seq<char>)
    requires
        ids::is_id(s),
    ensures
        s.len() == 26,
        forall|i: int| 0 <= i < 26 ==> ids::digit_value(#[trigger] s[i]) is Some,
        0 <= ids::made_at(s) < 0x1_0000_0000_0000,
        ids::number_of(s.take(10)) == 32 * ids::number_of(s.take(9)) + ids::digit_value(
            s[9],
        )->Some_0,
        ids::number_of(s.take(10)) < 0x1_0000_0000_0000 ==> ids::made_at(s) == ids::number_of(
            s.take(10),
        ),
{
    assert(s.take(10).drop_last() =~= s.take(9));
    lemma_number_not_negative(s, 10);
}

proof fn lemma_number_not_negative(s: Seq<char>, n: int)
    requires
        0 <= n <= s.len(),
        forall|i: int| 0 <= i < s.len() ==> ids::digit_value(#[trigger] s[i]) is Some,
    ensures
        ids::number_of(s.take(n)) >= 0,
    decreases n,
{
    if n > 0 {
        lemma_number_not_negative(s, n - 1);
        assert(s.take(n).drop_last() =~= s.take(n - 1));
        assert(ids::digit_value(s[n - 1]) is Some);
    }
}

} // verus!
