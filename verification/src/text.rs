//! How identifiers and numbers are written in messages.

use vstd::arithmetic::power::pow;
use vstd::prelude::*;

use crate::word::{AccountId, Word};

verus! {

/// A hexadecimal digit.
pub open spec fn digit(value: nat) -> Seq<char> {
    if value == 0 {
        "0"@
    } else if value == 1 {
        "1"@
    } else if value == 2 {
        "2"@
    } else if value == 3 {
        "3"@
    } else if value == 4 {
        "4"@
    } else if value == 5 {
        "5"@
    } else if value == 6 {
        "6"@
    } else if value == 7 {
        "7"@
    } else if value == 8 {
        "8"@
    } else if value == 9 {
        "9"@
    } else if value == 10 {
        "a"@
    } else if value == 11 {
        "b"@
    } else if value == 12 {
        "c"@
    } else if value == 13 {
        "d"@
    } else if value == 14 {
        "e"@
    } else {
        "f"@
    }
}

/// The last `count` hexadecimal digits of a number.
pub open spec fn hex_text(value: nat, count: nat) -> Seq<char>
    decreases count,
{
    if count == 0 {
        Seq::empty()
    } else {
        hex_text(value / 16, (count - 1) as nat) + digit(value % 16)
    }
}

/// The last `count` bytes of a number in hexadecimal, the lowest byte first.
pub open spec fn low_bytes_text(value: nat, count: nat) -> Seq<char>
    decreases count,
{
    if count == 0 {
        Seq::empty()
    } else {
        hex_text(value % 256, 2) + low_bytes_text(value / 256, (count - 1) as nat)
    }
}

/// A number in decimal.
pub open spec fn decimal_text(value: nat) -> Seq<char>
    decreases value,
{
    if value < 10 {
        digit(value)
    } else {
        decimal_text(value / 10) + digit(value % 10)
    }
}

/// A digest: its elements in hexadecimal, each with its lowest byte first.
pub open spec fn word_text(word: Word) -> Seq<char> {
    "0x"@ + low_bytes_text(word.e0 as nat, 8) + low_bytes_text(word.e1 as nat, 8)
        + low_bytes_text(word.e2 as nat, 8) + low_bytes_text(word.e3 as nat, 8)
}

/// An account id in hexadecimal, without its last byte, which is always zero.
pub open spec fn account_text(account_id: AccountId) -> Seq<char> {
    "0x"@ + hex_text(account_id as nat / 256, 30)
}

/// Returns a hexadecimal digit.
fn digit_str(value: u8) -> (text: &'static str)
    requires
        value < 16,
    ensures
        text@ == digit(value as nat),
{
    match value {
        0 => "0",
        1 => "1",
        2 => "2",
        3 => "3",
        4 => "4",
        5 => "5",
        6 => "6",
        7 => "7",
        8 => "8",
        9 => "9",
        10 => "a",
        11 => "b",
        12 => "c",
        13 => "d",
        14 => "e",
        _ => "f",
    }
}

/// Appends the last `count` hexadecimal digits of a number.
fn push_hex(text: &mut String, value: u128, count: u8)
    ensures
        final(text)@ == old(text)@ + hex_text(value as nat, count as nat),
    decreases count,
{
    if count > 0 {
        push_hex(text, value / 16, count - 1);
        text.append(digit_str((value % 16) as u8));
        assert(text@ =~= old(text)@ + (hex_text(value as nat / 16, (count - 1) as nat) + digit(
            value as nat % 16,
        )));
    } else {
        assert(text@ =~= old(text)@ + Seq::<char>::empty());
    }
}

/// Appends the last `count` bytes of a number in hexadecimal, the lowest byte first.
fn push_low_bytes(text: &mut String, value: u64, count: u8)
    ensures
        final(text)@ == old(text)@ + low_bytes_text(value as nat, count as nat),
    decreases count,
{
    if count > 0 {
        push_hex(text, (value % 256) as u128, 2);
        push_low_bytes(text, value / 256, count - 1);
        assert(text@ =~= old(text)@ + (hex_text(value as nat % 256, 2) + low_bytes_text(
            value as nat / 256,
            (count - 1) as nat,
        )));
    } else {
        assert(text@ =~= old(text)@ + Seq::<char>::empty());
    }
}

/// Appends a number in decimal.
pub(crate) fn push_decimal(text: &mut String, value: u32)
    ensures
        final(text)@ == old(text)@ + decimal_text(value as nat),
    decreases value,
{
    if value < 10 {
        text.append(digit_str(value as u8));
    } else {
        push_decimal(text, value / 10);
        text.append(digit_str((value % 10) as u8));
        assert(text@ =~= old(text)@ + (decimal_text(value as nat / 10) + digit(
            value as nat % 10,
        )));
    }
}

/// Appends a digest.
pub(crate) fn push_word(text: &mut String, word: Word)
    ensures
        final(text)@ == old(text)@ + word_text(word),
{
    text.append("0x");
    push_low_bytes(text, word.e0, 8);
    push_low_bytes(text, word.e1, 8);
    push_low_bytes(text, word.e2, 8);
    push_low_bytes(text, word.e3, 8);
    assert(text@ =~= old(text)@ + word_text(word));
}

/// Appends an account id.
pub(crate) fn push_account(text: &mut String, account_id: AccountId)
    ensures
        final(text)@ == old(text)@ + account_text(account_id),
{
    text.append("0x");
    push_hex(text, account_id / 256, 30);
    assert(text@ =~= old(text)@ + account_text(account_id));
}

// LAWS
// ================================================================================================

/// The number that a digit stands for.
pub open spec fn digit_value(symbol: char) -> int {
    if '0' <= symbol <= '9' {
        symbol as int - '0' as int
    } else {
        symbol as int - 'a' as int + 10
    }
}

/// The number that a text stands for in the given base, read from left to right.
pub open spec fn read_number(text: Seq<char>, base: int) -> int
    decreases text.len(),
{
    if text.len() == 0 {
        0
    } else {
        base * read_number(text.drop_last(), base) + digit_value(text.last())
    }
}

/// A digit is one symbol, and stands for its number.
pub proof fn law_digit_stands_for_its_number(value: nat)
    requires
        value < 16,
    ensures
        digit(value).len() == 1,
        digit_value(digit(value)[0]) == value,
        value < 10 ==> '0' <= digit(value)[0] <= '9',
        value >= 10 ==> 'a' <= digit(value)[0] <= 'f',
{
    reveal_strlit("0");
    reveal_strlit("1");
    reveal_strlit("2");
    reveal_strlit("3");
    reveal_strlit("4");
    reveal_strlit("5");
    reveal_strlit("6");
    reveal_strlit("7");
    reveal_strlit("8");
    reveal_strlit("9");
    reveal_strlit("a");
    reveal_strlit("b");
    reveal_strlit("c");
    reveal_strlit("d");
    reveal_strlit("e");
    reveal_strlit("f");
}

/// A number in decimal reads back as that number, and has no leading zero but for zero itself.
pub proof fn law_decimal_reads_back(value: nat)
    ensures
        decimal_text(value).len() > 0,
        read_number(decimal_text(value), 10) == value,
        value > 0 ==> digit_value(decimal_text(value)[0]) > 0,
        value == 0 ==> decimal_text(value).len() == 1,
    decreases value,
{
    law_digit_stands_for_its_number(value % 10);
    if value < 10 {
        assert(decimal_text(value).drop_last() =~= Seq::empty());
        assert(read_number(decimal_text(value).drop_last(), 10) == 0);
        assert(decimal_text(value).last() == digit(value)[0]);
    } else {
        law_decimal_reads_back(value / 10);
        assert(decimal_text(value).drop_last() =~= decimal_text(value / 10));
        assert(decimal_text(value).last() == digit(value % 10)[0]);
        assert(decimal_text(value)[0] == decimal_text(value / 10)[0]);
    }
}

/// A number with fewer than `count` digits, or exactly as many, reads back from its hexadecimal
/// text, which always has `count` digits.
pub proof fn law_hexadecimal_reads_back(value: nat, count: nat)
    ensures
        hex_text(value, count).len() == count,
        value < pow(16, count) ==> read_number(hex_text(value, count), 16) == value,
    decreases count,
{
    reveal(pow);
    if count > 0 {
        law_hexadecimal_reads_back(value / 16, (count - 1) as nat);
        law_digit_stands_for_its_number(value % 16);
        assert(hex_text(value, count).drop_last() =~= hex_text(value / 16, (count - 1) as nat));
        assert(hex_text(value, count).last() == digit(value % 16)[0]);
        assert(pow(16, count) == 16 * pow(16, (count - 1) as nat));
    }
}

/// The bytes of a number are written one after the other, the lowest first, each with two digits
/// that read back as the byte.
pub proof fn law_low_bytes_come_first(value: nat, count: nat)
    requires
        count > 0,
    ensures
        ({
            let text = low_bytes_text(value, count);
            &&& text.len() == 2 * count
            &&& read_number(text.take(2), 16) == value % 256
            &&& text.skip(2) == low_bytes_text(value / 256, (count - 1) as nat)
        }),
{
    lemma_low_bytes_length(value / 256, (count - 1) as nat);
    law_hexadecimal_reads_back(value % 256, 2);
    assert(pow(16, 2) == 256) by {
        reveal_with_fuel(pow, 3);
    }
    assert(low_bytes_text(value, count).take(2) =~= hex_text(value % 256, 2));
    assert(low_bytes_text(value, count).skip(2) =~= low_bytes_text(
        value / 256,
        (count - 1) as nat,
    ));
}

/// Every byte takes two digits.
proof fn lemma_low_bytes_length(value: nat, count: nat)
    ensures
        low_bytes_text(value, count).len() == 2 * count,
    decreases count,
{
    law_hexadecimal_reads_back(value % 256, 2);
    if count > 0 {
        lemma_low_bytes_length(value / 256, (count - 1) as nat);
    }
}

/// A digest is written as its four elements in order, after a prefix.
pub proof fn law_digest_is_written_element_by_element(word: Word)
    ensures
        word_text(word).len() == 66,
        word_text(word).subrange(0, 2) == "0x"@,
        word_text(word).subrange(2, 18) == low_bytes_text(word.e0 as nat, 8),
        word_text(word).subrange(18, 34) == low_bytes_text(word.e1 as nat, 8),
        word_text(word).subrange(34, 50) == low_bytes_text(word.e2 as nat, 8),
        word_text(word).subrange(50, 66) == low_bytes_text(word.e3 as nat, 8),
{
    reveal_strlit("0x");
    lemma_low_bytes_length(word.e0 as nat, 8);
    lemma_low_bytes_length(word.e1 as nat, 8);
    lemma_low_bytes_length(word.e2 as nat, 8);
    lemma_low_bytes_length(word.e3 as nat, 8);
    assert(word_text(word).subrange(0, 2) =~= "0x"@);
    assert(word_text(word).subrange(2, 18) =~= low_bytes_text(word.e0 as nat, 8));
    assert(word_text(word).subrange(18, 34) =~= low_bytes_text(word.e1 as nat, 8));
    assert(word_text(word).subrange(34, 50) =~= low_bytes_text(word.e2 as nat, 8));
    assert(word_text(word).subrange(50, 66) =~= low_bytes_text(word.e3 as nat, 8));
}

/// An account id is written with thirty digits after a prefix, which read back as the id without
/// its last byte.
pub proof fn law_account_id_reads_back(account_id: AccountId)
    ensures
        account_text(account_id).len() == 32,
        account_text(account_id).take(2) == "0x"@,
        read_number(account_text(account_id).skip(2), 16) == account_id / 256,
{
    reveal_strlit("0x");
    law_hexadecimal_reads_back(account_id as nat / 256, 30);
    assert(account_id / 256 < pow(16, 30)) by {
        reveal_with_fuel(pow, 31);
    }
    assert(account_text(account_id).take(2) =~= "0x"@);
    assert(account_text(account_id).skip(2) =~= hex_text(account_id as nat / 256, 30));
}

} // verus!
