//! The numbers that addresses and messages spell out, and the places in a
//! text where one part ends and the next begins.
use vstd::prelude::*;

verus! {

/// The character that stands for `n`, up to fifteen.
pub open spec fn digit_of(n: int) -> char {
    "0123456789abcdef"@[n]
}

/// `n` in decimal, without leading zeros.
pub open spec fn decimal(n: nat) -> Seq<char>
    decreases n,
{
    if n < 10 {
        seq![digit_of(n as int)]
    } else {
        decimal(n / 10).push(digit_of((n % 10) as int))
    }
}

/// `byte` in hexadecimal, as `0x` and two digits.
pub open spec fn hexadecimal(byte: u8) -> Seq<char> {
    "0x"@ + seq![digit_of(byte as int / 16), digit_of(byte as int % 16)]
}

pub open spec fn is_decimal_digit(c: char) -> bool {
    '0' <= c <= '9'
}

/// What a run of decimal digits counts.
pub open spec fn digits_value(digits: Seq<char>) -> nat
    decreases digits.len(),
{
    if digits.len() == 0 {
        0
    } else {
        digits_value(digits.drop_last()) * 10 + (digits.last() as nat - '0' as nat) as nat
    }
}

/// What is left of a number when a leading plus sign is taken off.
pub open spec fn without_plus(number: Seq<char>) -> Seq<char> {
    if number.len() > 0 && number[0] == '+' {
        number.skip(1)
    } else {
        number
    }
}

/// The byte that `number` spells: at least one decimal digit and nothing
/// else behind an optional plus sign, counting no more than 255.
pub open spec fn byte_of(number: Seq<char>) -> Option<u8> {
    let digits = without_plus(number);
    if digits.len() > 0 && (forall|i: int|
        0 <= i < digits.len() ==> is_decimal_digit(#[trigger] digits[i])) && digits_value(digits)
        <= 255 {
        Some(digits_value(digits) as u8)
    } else {
        None
    }
}

/// Write the digit `n` behind `out`.
fn push_digit(out: &mut String, n: u8)
    requires
        n < 16,
    ensures
        final(out)@ == old(out)@.push(digit_of(n as int)),
{
    proof {
        reveal_strlit("0123456789abcdef");
    }
    out.append("0123456789abcdef".substring_char(n as usize, n as usize + 1));
    assert(out@ =~= old(out)@.push(digit_of(n as int)));
}

/// Write `n` behind `out` in decimal.
pub fn push_decimal(out: &mut String, n: u8)
    ensures
        final(out)@ == old(out)@ + decimal(n as nat),
{
    proof {
        reveal_with_fuel(decimal, 3);
    }
    if n >= 100 {
        push_digit(out, n / 100);
    }
    if n >= 10 {
        push_digit(out, n / 10 % 10);
    }
    push_digit(out, n % 10);
    assert(out@ =~= old(out)@ + decimal(n as nat));
}

/// Write `byte` behind `out` in hexadecimal.
pub fn push_hexadecimal(out: &mut String, byte: u8)
    ensures
        final(out)@ == old(out)@ + hexadecimal(byte),
{
    out.append("0x");
    push_digit(out, byte / 16);
    push_digit(out, byte % 16);
    assert(out@ =~= old(out)@ + hexadecimal(byte));
}

/// The characters of `text`, in order.
fn characters(text: &str) -> (characters: Vec<char>)
    ensures
        characters@ == text@,
{
    let mut characters: Vec<char> = Vec::new();
    for c in it: text.chars()
        invariant
            it.seq() == text@,
            characters@ == text@.take(it.index() as int),
    {
        characters.push(c);
        assert(characters@ =~= text@.take(it.index() + 1));
    }
    assert(characters@ =~= text@);
    characters
}

/// The byte that `number` spells, where it spells one.
pub fn parse_byte(number: &str) -> (byte: Option<u8>)
    ensures
        byte == byte_of(number@),
{
    let characters: Vec<char> = characters(number);
    let start: usize = if characters.len() > 0 && characters[0] == '+' {
        1
    } else {
        0
    };
    let ghost digits = without_plus(number@);
    assert(digits =~= number@.skip(start as int));
    // 256 stands for every count past what a byte holds.
    let mut value: u16 = 0;
    let mut at: usize = start;
    while at < characters.len()
        invariant
            start <= at <= characters.len(),
            characters@ == number@,
            digits == without_plus(number@),
            digits == number@.skip(start as int),
            value == if digits_value(digits.take(at - start)) <= 255 {
                digits_value(digits.take(at - start)) as int
            } else {
                256
            },
            forall|i: int| 0 <= i < at - start ==> is_decimal_digit(#[trigger] digits[i]),
        decreases characters.len() - at,
    {
        let c: char = characters[at];
        assert(digits[at - start] == c);
        if c < '0' || '9' < c {
            return None;
        }
        assert(digits.take(at - start + 1).drop_last() =~= digits.take(at - start));
        let next: u16 = value * 10 + (c as u32 - '0' as u32) as u16;
        value = if next > 255 {
            256
        } else {
            next
        };
        at = at + 1;
    }
    assert(digits.take(at - start) =~= digits);
    if characters.len() == start || value > 255 {
        None
    } else {
        Some(value as u8)
    }
}

/// What a URI of the scheme that `prefix` writes names: all up to the first
/// slash behind the prefix, and all behind that slash; nothing where the
/// target is no such URI.
pub open spec fn uri_parts(prefix: Seq<char>, target: Seq<char>) -> Option<(Seq<char>, Seq<char>)> {
    if !prefix.is_prefix_of(target) {
        None
    } else {
        let rest = target.skip(prefix.len() as int);
        match rest.index_of_first('/') {
            Some(slash) => Some((rest.take(slash), rest.skip(slash + 1))),
            None => Some((rest, seq![])),
        }
    }
}

/// The authority and the path of `target`, where it is a URI that starts
/// with `prefix`.
pub fn split_uri<'a>(prefix: &str, target: &'a str) -> (parts: Option<(&'a str, &'a str)>)
    ensures
        match (parts, uri_parts(prefix@, target@)) {
            (Some((authority, path)), Some((authority_spec, path_spec))) => {
                &&& authority@ == authority_spec
                &&& path@ == path_spec
            },
            (None, None) => true,
            _ => false,
        },
{
    let wanted: Vec<char> = characters(prefix);
    let given: Vec<char> = characters(target);
    if given.len() < wanted.len() {
        return None;
    }
    let start: usize = wanted.len();
    let mut at: usize = 0;
    while at < start
        invariant
            at <= start <= given.len(),
            start == wanted.len(),
            wanted@ == prefix@,
            given@ == target@,
            forall|i: int| 0 <= i < at ==> wanted@[i] == given@[i],
        decreases start - at,
    {
        if wanted[at] != given[at] {
            assert(prefix@[at as int] != target@.subrange(0, start as int)[at as int]);
            return None;
        }
        at = at + 1;
    }
    assert(prefix@ =~= target@.subrange(0, start as int));
    let ghost rest = target@.skip(start as int);
    proof {
        rest.index_of_first_ensures('/');
    }
    while at < given.len()
        invariant
            start <= at <= given.len(),
            given@ == target@,
            rest == target@.skip(start as int),
            forall|i: int| 0 <= i < at - start ==> rest[i] != '/',
        ensures
            start <= at <= given.len(),
            forall|i: int| 0 <= i < at - start ==> rest[i] != '/',
            at < given.len() ==> rest[at - start] == '/',
        decreases given.len() - at,
    {
        if given[at] == '/' {
            break;
        }
        at = at + 1;
    }
    let authority: &'a str = target.substring_char(start, at);
    assert(authority@ =~= rest.take(at - start));
    if at < given.len() {
        assert(rest.contains('/'));
        let path: &'a str = target.substring_char(at + 1, given.len());
        assert(path@ =~= rest.skip(at - start + 1));
        Some((authority, path))
    } else {
        assert(authority@ =~= rest);
        let path: &'a str = target.substring_char(at, given.len());
        assert(path@ =~= seq![]);
        Some((authority, path))
    }
}

/// Every byte reads back from its own decimal digits.
pub proof fn law_decimal_reads_back(byte: u8)
    ensures
        byte_of(decimal(byte as nat)) == Some(byte),
{
    reveal_strlit("0123456789abcdef");
    reveal_with_fuel(decimal, 3);
    reveal_with_fuel(digits_value, 4);
    let digits = decimal(byte as nat);
    let n = byte as nat;
    if n < 10 {
        assert(digits.drop_last() =~= seq![]);
    } else if n < 100 {
        assert(digits.drop_last() =~= decimal(n / 10));
        assert(digits.drop_last().drop_last() =~= seq![]);
    } else {
        assert(digits.drop_last() =~= decimal(n / 10));
        assert(digits.drop_last().drop_last() =~= decimal(n / 100));
        assert(digits.drop_last().drop_last().drop_last() =~= seq![]);
    }
}

/// A byte in decimal is its hundreds, tens and ones, each as the character
/// that many behind `0`, and no zero in front.
pub proof fn law_decimal_is_hundreds_tens_and_ones(byte: u8)
    ensures
        ({
            let digits = decimal(byte as nat);
            if byte < 10 {
                &&& digits.len() == 1
                &&& digits[0] as int == 48 + byte
            } else if byte < 100 {
                &&& digits.len() == 2
                &&& digits[0] as int == 48 + byte / 10
                &&& digits[1] as int == 48 + byte % 10
            } else {
                &&& digits.len() == 3
                &&& digits[0] as int == 48 + byte / 100
                &&& digits[1] as int == 48 + byte / 10 % 10
                &&& digits[2] as int == 48 + byte % 10
            }
        }),
{
    reveal_strlit("0123456789abcdef");
    reveal_with_fuel(decimal, 3);
}

/// A byte in hexadecimal is `0x` and its two halves, the high one first, each
/// as the character that many behind `0` or, from ten on, that many past ten
/// behind `a`.
pub proof fn law_hexadecimal_is_two_halves(byte: u8)
    ensures
        ({
            let digits = hexadecimal(byte);
            &&& digits.len() == 4
            &&& digits[0] == '0'
            &&& digits[1] == 'x'
            &&& digits[2] as int == if byte / 16 < 10 {
                48 + byte / 16
            } else {
                97 + (byte / 16 - 10)
            }
            &&& digits[3] as int == if byte % 16 < 10 {
                48 + byte % 16
            } else {
                97 + (byte % 16 - 10)
            }
        }),
{
    reveal_strlit("0123456789abcdef");
    reveal_strlit("0x");
}

/// No digits spell no byte, with and without a plus sign; one digit spells
/// what it counts, with and without.
pub proof fn law_one_digit_spells_what_it_counts(c: char)
    ensures
        byte_of(seq![]) == None::<u8>,
        byte_of(seq!['+']) == None::<u8>,
        ({
            let spelt = if 48 <= c as int <= 57 {
                Some((c as int - 48) as u8)
            } else {
                None
            };
            &&& byte_of(seq![c]) == spelt
            &&& byte_of(seq!['+', c]) == spelt
        }),
{
    reveal_with_fuel(digits_value, 2);
    let alone = seq![c];
    assert(seq!['+'].skip(1) =~= seq![]);
    assert(seq!['+', c].skip(1) =~= alone);
    assert(alone.drop_last() =~= seq![]);
    assert(alone[0] == c);
    if 48 <= c as int <= 57 {
        assert(forall|i: int| 0 <= i < alone.len() ==> is_decimal_digit(#[trigger] alone[i]));
    }
}

/// One character behind a number that has digits: a digit makes it ten times
/// as much and that digit more, up to 255; past that, with any other
/// character, and behind what already spells no byte, nothing is spelt.
pub proof fn law_a_digit_more_is_ten_times_as_much(number: Seq<char>, c: char)
    requires
        number.len() > 0,
        number != seq!['+'],
    ensures
        byte_of(number.push(c)) == match byte_of(number) {
            Some(byte) => if 48 <= c as int <= 57 && 10 * byte + (c as int - 48) <= 255 {
                Some((10 * byte + (c as int - 48)) as u8)
            } else {
                None
            },
            None => None,
        },
{
    let digits = without_plus(number);
    let longer = without_plus(number.push(c));
    if number[0] == '+' {
        if number.len() == 1 {
            assert(number =~= seq!['+']);
        }
        assert(number.push(c).skip(1) =~= number.skip(1).push(c));
    }
    assert(longer =~= digits.push(c));
    assert(longer.drop_last() =~= digits);
    assert(longer.last() == c);
    assert(forall|i: int| 0 <= i < digits.len() ==> digits[i] == longer[i]);
    if forall|i: int| 0 <= i < longer.len() ==> is_decimal_digit(#[trigger] longer[i]) {
        assert(is_decimal_digit(longer[digits.len() as int]));
        assert forall|i: int| 0 <= i < digits.len() implies is_decimal_digit(
            #[trigger] digits[i],
        ) by {
            assert(is_decimal_digit(longer[i]));
        }
    }
    if is_decimal_digit(c) && (forall|i: int|
        0 <= i < digits.len() ==> is_decimal_digit(#[trigger] digits[i])) {
        assert forall|i: int| 0 <= i < longer.len() implies is_decimal_digit(
            #[trigger] longer[i],
        ) by {
            if i < digits.len() {
                assert(is_decimal_digit(digits[i]));
            }
        }
    }
}

/// A URI is split at the first slash behind what it has to begin with: into
/// what is in front of that slash and what is behind it, whatever that
/// holds, and where there is no slash, there is nothing behind it.
pub proof fn law_a_uri_is_split_at_the_first_slash(
    prefix: Seq<char>,
    authority: Seq<char>,
    path: Seq<char>,
)
    requires
        !authority.contains('/'),
    ensures
        uri_parts(prefix, prefix + authority) == Some((authority, Seq::<char>::empty())),
        uri_parts(prefix, prefix + authority + seq!['/'] + path) == Some((authority, path)),
{
    let bare = prefix + authority;
    assert(prefix =~= bare.subrange(0, prefix.len() as int));
    assert(bare.skip(prefix.len() as int) =~= authority);
    authority.index_of_first_ensures('/');
    let target = prefix + authority + seq!['/'] + path;
    let rest = target.skip(prefix.len() as int);
    assert(prefix =~= target.subrange(0, prefix.len() as int));
    assert(rest =~= authority + seq!['/'] + path);
    rest.index_of_first_ensures('/');
    assert(rest[authority.len() as int] == '/');
    assert(rest.contains('/'));
    let slash = rest.index_of_first('/')->Some_0;
    if slash < authority.len() {
        assert(authority[slash] == '/');
    }
    assert(rest.take(slash) =~= authority);
    assert(rest.skip(slash + 1) =~= path);
}

/// What does not begin as a URI has to is none, and has no parts.
pub proof fn law_what_begins_otherwise_is_no_uri(prefix: Seq<char>, target: Seq<char>)
    requires
        target.len() < prefix.len() || exists|i: int|
            0 <= i < prefix.len() && prefix[i] != #[trigger] target[i],
    ensures
        uri_parts(prefix, target) is None,
{
    if target.len() >= prefix.len() {
        let i = choose|i: int| 0 <= i < prefix.len() && prefix[i] != #[trigger] target[i];
        assert(target.subrange(0, prefix.len() as int)[i] == target[i]);
    }
}

} // verus!
