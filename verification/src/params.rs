//! Text parameters of the form `key=value,key=value`, and the numbers in them.
use vstd::prelude::*;
use vstd::string::StrSliceExecFns;

verus! {

/// The parts of `text` between the separators.
pub open spec fn split_on(text: Seq<char>, sep: char) -> Seq<Seq<char>>
    decreases text.len(),
{
    if text.len() == 0 {
        seq![Seq::empty()]
    } else {
        let parts = split_on(text.drop_last(), sep);
        if text.last() == sep {
            parts.push(Seq::empty())
        } else {
            parts.drop_last().push(parts.last().push(text.last()))
        }
    }
}

/// The texts that `parts` hold.
pub open spec fn texts(parts: Seq<&str>) -> Seq<Seq<char>> {
    parts.map_values(|s: &str| s@)
}

/// The text behind `key` in the last parameter that starts with it, and nothing where none does.
pub open spec fn value_of(params: Seq<Seq<char>>, key: Seq<char>) -> Seq<char>
    decreases params.len(),
{
    if params.len() == 0 {
        Seq::empty()
    } else if key.is_prefix_of(params.last()) {
        params.last().skip(key.len() as int)
    } else {
        value_of(params.drop_last(), key)
    }
}

/// Splits `text` at every `sep`.
pub fn split<'a>(text: &'a str, sep: char) -> (parts: Vec<&'a str>)
    ensures
        texts(parts@) == split_on(text@, sep),
{
    let mut parts: Vec<&'a str> = Vec::new();
    let mut start: usize = 0;
    let len: usize = text.unicode_len();
    let mut i: usize = 0;
    proof {
        assert(text@.take(0) =~= Seq::<char>::empty());
        assert(split_on(text@.take(0), sep) =~= texts(parts@).push(text@.subrange(0, 0)));
    }
    while i < len
        invariant
            len == text@.len(),
            start <= i <= len,
            split_on(text@.take(i as int), sep) == texts(parts@).push(
                text@.subrange(start as int, i as int),
            ),
        decreases len - i,
    {
        let c = text.get_char(i);
        let ghost done = texts(parts@);
        proof {
            assert(text@.take(i + 1).drop_last() =~= text@.take(i as int));
            assert(done.push(text@.subrange(start as int, i as int)).drop_last() =~= done);
            assert(text@.subrange(start as int, i as int).push(c) =~= text@.subrange(
                start as int,
                i + 1,
            ));
        }
        if c == sep {
            let part = text.substring_char(start, i);
            parts.push(part);
            start = i + 1;
            assert(texts(parts@) =~= done.push(part@));
            assert(text@.subrange(start as int, i + 1) =~= Seq::<char>::empty());
        }
        i = i + 1;
    }
    let ghost done = texts(parts@);
    let part = text.substring_char(start, len);
    parts.push(part);
    proof {
        assert(text@.take(len as int) =~= text@);
        assert(texts(parts@) =~= done.push(part@));
    }
    parts
}

/// The text behind `key`, where `param` starts with it.
fn behind<'a>(param: &'a str, key: &str) -> (value: Option<&'a str>)
    ensures
        value is Some <==> key@.is_prefix_of(param@),
        value matches Some(value) ==> value@ == param@.skip(key@.len() as int),
{
    let len: usize = param.unicode_len();
    let key_len: usize = key.unicode_len();
    if len < key_len {
        return None;
    }
    let mut i: usize = 0;
    while i < key_len
        invariant
            len == param@.len(),
            key_len == key@.len(),
            i <= key_len <= len,
            forall|j: int| 0 <= j < i ==> key@[j] == param@[j],
        decreases key_len - i,
    {
        if key.get_char(i) != param.get_char(i) {
            assert(key@[i as int] != param@.subrange(0, key@.len() as int)[i as int]);
            return None;
        }
        i = i + 1;
    }
    assert(key@ =~= param@.subrange(0, key@.len() as int));
    Some(param.substring_char(key_len, len))
}

/// Looks `key` up in `params`.
pub fn lookup<'a>(params: &Vec<&'a str>, key: &str) -> (value: &'a str)
    ensures
        value@ == value_of(texts(params@), key@),
{
    let mut i: usize = params.len();
    assert(texts(params@).take(params@.len() as int) =~= texts(params@));
    while i > 0
        invariant
            i <= params@.len(),
            value_of(texts(params@), key@) == value_of(texts(params@).take(i as int), key@),
        decreases i,
    {
        i = i - 1;
        assert(texts(params@).take(i + 1).drop_last() =~= texts(params@).take(i as int));
        if let Some(value) = behind(params[i], key) {
            return value;
        }
    }
    proof {
        reveal_strlit("");
        assert(""@ =~= Seq::<char>::empty());
    }
    ""
}

/// Whether `c` is a decimal digit.
pub open spec fn is_digit(c: char) -> bool {
    '0' <= c <= '9'
}

/// The number that the digits `text` write.
pub open spec fn digits_value(text: Seq<char>) -> nat
    decreases text.len(),
{
    if text.len() == 0 {
        0
    } else {
        digits_value(text.drop_last()) * 10 + (text.last() as nat - '0' as nat) as nat
    }
}

/// Whether `text` is a number: digits, at least one, with a plus sign in front of them or none.
pub open spec fn is_number(text: Seq<char>) -> bool {
    let digits = unsigned(text);
    digits.len() > 0 && forall|i: int| 0 <= i < digits.len() ==> is_digit(#[trigger] digits[i])
}

/// `text` without a plus sign in front.
pub open spec fn unsigned(text: Seq<char>) -> Seq<char> {
    if text.len() > 0 && text[0] == '+' {
        text.skip(1)
    } else {
        text
    }
}

/// The value of `text` where it is a number of at most `max`.
pub open spec fn number(text: Seq<char>, max: nat) -> Option<nat> {
    if is_number(text) && digits_value(unsigned(text)) <= max {
        Some(digits_value(unsigned(text)))
    } else {
        None
    }
}

/// The error of `<usize as std::str::FromStr>::from_str` on a text that it refuses.
pub uninterp spec fn usize_error(text: Seq<char>) -> std::num::ParseIntError;

/// The error of `<u16 as std::str::FromStr>::from_str` on a text that it refuses.
pub uninterp spec fn u16_error(text: Seq<char>) -> std::num::ParseIntError;

/// What reading `text` as a `usize` gives.
pub open spec fn read_usize(text: Seq<char>) -> Result<usize, std::num::ParseIntError> {
    match number(text, usize::MAX as nat) {
        Some(n) => Ok(n as usize),
        None => Err(usize_error(text)),
    }
}

/// What reading `text` as a `u16` gives.
pub open spec fn read_u16(text: Seq<char>) -> Result<u16, std::num::ParseIntError> {
    match number(text, u16::MAX as nat) {
        Some(n) => Ok(n as u16),
        None => Err(u16_error(text)),
    }
}

/// `<usize as std::str::FromStr>::from_str`: it succeeds with the value of a decimal number that
/// fits, with a plus sign in front or none, and fails on every other text, with an error that the
/// text alone decides.
#[verifier::external_body]
pub(crate) fn parse_usize(text: &str) -> (r: Result<usize, std::num::ParseIntError>)
    ensures
        r is Ok <==> number(text@, usize::MAX as nat) is Some,
        r matches Ok(n) ==> number(text@, usize::MAX as nat) == Some(n as nat),
        r matches Err(e) ==> e == usize_error(text@),
{
    text.parse()
}

/// `<u16 as std::str::FromStr>::from_str`: it succeeds with the value of a decimal number that
/// fits, with a plus sign in front or none, and fails on every other text, with an error that the
/// text alone decides.
#[verifier::external_body]
pub(crate) fn parse_u16(text: &str) -> (r: Result<u16, std::num::ParseIntError>)
    ensures
        r is Ok <==> number(text@, u16::MAX as nat) is Some,
        r matches Ok(n) ==> number(text@, u16::MAX as nat) == Some(n as nat),
        r matches Err(e) ==> e == u16_error(text@),
{
    text.parse()
}

/// The parts of a text, with the separator between them.
pub open spec fn joined(parts: Seq<Seq<char>>, sep: char) -> Seq<char>
    decreases parts.len(),
{
    if parts.len() == 0 {
        Seq::empty()
    } else if parts.len() == 1 {
        parts[0]
    } else {
        joined(parts.drop_last(), sep).push(sep) + parts.last()
    }
}

/// Splitting leaves no separator in any part, and the parts joined with the separator give the text
/// back.
pub proof fn law_join_undoes_split(text: Seq<char>, sep: char)
    ensures
        split_on(text, sep).len() > 0,
        joined(split_on(text, sep), sep) == text,
        forall|i: int|
            0 <= i < split_on(text, sep).len() ==> !(#[trigger] split_on(text, sep)[i]).contains(
                sep,
            ),
    decreases text.len(),
{
    let parts = split_on(text, sep);
    if text.len() > 0 {
        let before = split_on(text.drop_last(), sep);
        law_join_undoes_split(text.drop_last(), sep);
        assert(text =~= text.drop_last().push(text.last()));
        if text.last() == sep {
            assert(parts.drop_last() =~= before);
            assert(joined(parts, sep) =~= text);
        } else {
            assert(parts.drop_last() =~= before.drop_last());
            assert forall|i: int| 0 <= i < parts.len() implies !(#[trigger] parts[i]).contains(
                sep,
            ) by {
                if i < parts.len() - 1 {
                    assert(parts[i] == before[i]);
                } else {
                    assert(!before.last().contains(sep));
                    if parts[i].contains(sep) {
                        let k = choose|k: int| 0 <= k < parts[i].len() && parts[i][k] == sep;
                        assert(before.last()[k] == sep);
                    }
                }
            }
            assert(joined(parts, sep) =~= text);
        }
    } else {
        assert(text =~= Seq::<char>::empty());
    }
}

/// A separator and a part without one, behind a text, add that part to the parts of the text.
pub proof fn law_split_appends(text: Seq<char>, sep: char, part: Seq<char>)
    requires
        !part.contains(sep),
    ensures
        split_on(text.push(sep) + part, sep) == split_on(text, sep).push(part),
    decreases part.len(),
{
    let whole = text.push(sep) + part;
    if part.len() == 0 {
        assert(whole =~= text.push(sep));
        assert(whole.drop_last() =~= text);
        assert(part =~= Seq::<char>::empty());
    } else {
        let shorter = part.drop_last();
        assert(part.contains(part.last()));
        assert(!shorter.contains(sep)) by {
            if shorter.contains(sep) {
                let k = choose|k: int| 0 <= k < shorter.len() && shorter[k] == sep;
                assert(part[k] == sep);
            }
        }
        law_split_appends(text, sep, shorter);
        assert(whole.drop_last() =~= text.push(sep) + shorter);
        let parts = split_on(text, sep).push(shorter);
        assert(parts.drop_last() =~= split_on(text, sep));
        assert(shorter.push(part.last()) =~= part);
    }
}

/// A parameter behind others decides the value of its key, and of no other key.
pub proof fn law_last_parameter_decides(
    text: Seq<char>,
    key: Seq<char>,
    value: Seq<char>,
    other: Seq<char>,
)
    requires
        !(key + value).contains(','),
        !other.is_prefix_of(key + value),
    ensures
        value_of(split_on(text.push(',') + (key + value), ','), key) == value,
        value_of(split_on(text.push(',') + (key + value), ','), other) == value_of(
            split_on(text, ','),
            other,
        ),
{
    law_split_appends(text, ',', key + value);
    let params = split_on(text, ',');
    assert((key + value).subrange(0, key.len() as int) =~= key);
    assert((key + value).skip(key.len() as int) =~= value);
    assert(params.push(key + value).drop_last() =~= params);
}

/// Joining is undone by splitting, where no part holds the separator.
pub proof fn law_split_undoes_join(parts: Seq<Seq<char>>, sep: char)
    requires
        parts.len() > 0,
        forall|i: int| 0 <= i < parts.len() ==> !(#[trigger] parts[i]).contains(sep),
    ensures
        split_on(joined(parts, sep), sep) == parts,
    decreases parts.len(),
{
    let before = parts.drop_last();
    assert(!parts.last().contains(sep));
    if parts.len() == 1 {
        lemma_split_whole(parts[0], sep);
        assert(parts =~= seq![parts[0]]);
    } else {
        assert forall|i: int| 0 <= i < before.len() implies !(#[trigger] before[i]).contains(
            sep,
        ) by {
            assert(before[i] == parts[i]);
        }
        law_split_undoes_join(before, sep);
        law_split_appends(joined(before, sep), sep, parts.last());
        assert(before.push(parts.last()) =~= parts);
    }
}

proof fn lemma_split_whole(text: Seq<char>, sep: char)
    requires
        !text.contains(sep),
    ensures
        split_on(text, sep) == seq![text],
    decreases text.len(),
{
    if text.len() == 0 {
        assert(text =~= Seq::<char>::empty());
    } else {
        let shorter = text.drop_last();
        assert(text.contains(text.last()));
        assert forall|k: int| 0 <= k < shorter.len() implies shorter[k] != sep by {
            assert(text.contains(text[k]));
        }
        lemma_split_whole(shorter, sep);
        assert(shorter.push(text.last()) =~= text);
        assert(split_on(text, sep) =~= seq![text]);
    }
}

/// A parameter has the value behind its key, where all behind it start otherwise.
pub proof fn lemma_value_of(params: Seq<Seq<char>>, key: Seq<char>, value: Seq<char>, k: int)
    requires
        0 <= k < params.len(),
        params[k] == key + value,
        key.len() > 0,
        forall|j: int| k < j < params.len() ==> (#[trigger] params[j]).len() > 0 && params[j][0]
            != key[0],
    ensures
        value_of(params, key) == value,
    decreases params.len(),
{
    if k == params.len() - 1 {
        assert((key + value).subrange(0, key.len() as int) =~= key);
        assert((key + value).skip(key.len() as int) =~= value);
    } else {
        let last = params.last();
        assert(last == params[params.len() - 1]);
        assert(!key.is_prefix_of(last)) by {
            if key.is_prefix_of(last) {
                assert(key[0] == last.subrange(0, key.len() as int)[0]);
            }
        }
        lemma_value_of(params.drop_last(), key, value, k);
    }
}

/// A key and a value without a comma make a parameter without one.
pub proof fn lemma_param_lacks_comma(key: Seq<char>, value: Seq<char>)
    requires
        !key.contains(','),
        !value.contains(','),
    ensures
        !(key + value).contains(','),
{
    assert forall|i: int| 0 <= i < (key + value).len() implies (key + value)[i] != ',' by {
        if i < key.len() {
            assert(key.contains(key[i]));
        } else {
            assert(value.contains(value[i - key.len()]));
        }
    }
}

/// The digit for `d`.
pub open spec fn digit(d: nat) -> char {
    ('0' as nat + d) as char
}

/// `n` in decimal digits, without zeros in front.
pub open spec fn decimal(n: nat) -> Seq<char>
    decreases n,
{
    if n < 10 {
        seq![digit(n)]
    } else {
        decimal(n / 10).push(digit(n % 10))
    }
}

/// The decimal digits of a number are digits, without zeros in front, and write that number.
pub proof fn lemma_decimal(n: nat)
    ensures
        decimal(n).len() > 0,
        forall|i: int| 0 <= i < decimal(n).len() ==> is_digit(#[trigger] decimal(n)[i]),
        digits_value(decimal(n)) == n,
        n > 0 ==> decimal(n)[0] != '0',
        n < 10 ==> decimal(n).len() == 1,
        n < 100 ==> decimal(n).len() <= 2,
        n < 1000 ==> decimal(n).len() <= 3,
        !decimal(n).contains(','),
        !decimal(n).contains('.'),
    decreases n,
{
    if n < 10 {
        assert(decimal(n).drop_last() =~= Seq::<char>::empty());
        assert(digits_value(decimal(n).drop_last()) == 0);
    } else {
        lemma_decimal(n / 10);
        assert(decimal(n).drop_last() =~= decimal(n / 10));
        assert(decimal(n)[0] == decimal(n / 10)[0]);
    }
}

/// A number that is written in decimal digits is read back.
pub proof fn law_number_reads_back(n: nat, max: nat)
    requires
        n <= max,
    ensures
        number(decimal(n), max) == Some(n),
{
    lemma_decimal(n);
    assert(is_digit(decimal(n)[0]));
}

/// The value of a key is what stands behind it in the last parameter that starts with it, and nothing
/// where none does.
pub proof fn law_value_is_that_of_the_last_parameter(params: Seq<Seq<char>>, key: Seq<char>)
    ensures
        (forall|i: int| 0 <= i < params.len() ==> !key.is_prefix_of(#[trigger] params[i]))
            ==> value_of(params, key).len() == 0,
        forall|k: int|
            0 <= k < params.len() && key.is_prefix_of(#[trigger] params[k]) && (forall|j: int|
                k < j < params.len() ==> !key.is_prefix_of(#[trigger] params[j])) ==> key
                + value_of(params, key) == params[k],
    decreases params.len(),
{
    if params.len() > 0 {
        let before = params.drop_last();
        let last = params[params.len() - 1];
        law_value_is_that_of_the_last_parameter(before, key);
        if key.is_prefix_of(last) {
            assert(key + last.skip(key.len() as int) =~= last);
        } else {
            assert forall|i: int| 0 <= i < before.len() implies before[i] == #[trigger] params[i] by {
            }
            assert forall|k: int|
                0 <= k < params.len() && key.is_prefix_of(#[trigger] params[k]) && (forall|j: int|
                    k < j < params.len() ==> !key.is_prefix_of(
                        #[trigger] params[j],
                    )) implies key + value_of(params, key) == params[k] by {
                assert(k < params.len() - 1);
                assert(before[k] == params[k]);
                assert forall|j: int| k < j < before.len() implies !key.is_prefix_of(
                    #[trigger] before[j],
                ) by {
                    assert(before[j] == params[j]);
                }
            }
        }
    }
}

/// `n` zeros.
pub open spec fn zeros(n: nat) -> Seq<char> {
    Seq::new(n, |i: int| '0')
}

proof fn lemma_zeros(n: nat)
    ensures
        digits_value(zeros(n)) == 0,
    decreases n,
{
    if n > 0 {
        lemma_zeros((n - 1) as nat);
        assert(zeros(n).drop_last() =~= zeros((n - 1) as nat));
    }
}

proof fn lemma_zeros_in_front(n: nat, text: Seq<char>)
    ensures
        digits_value(zeros(n) + text) == digits_value(text),
    decreases text.len(),
{
    if text.len() == 0 {
        lemma_zeros(n);
        assert(zeros(n) + text =~= zeros(n));
    } else {
        lemma_zeros_in_front(n, text.drop_last());
        assert((zeros(n) + text).drop_last() =~= zeros(n) + text.drop_last());
    }
}

/// Digits are zeros and then the decimal digits of the number that they write.
proof fn lemma_digits(text: Seq<char>) -> (k: nat)
    requires
        text.len() > 0,
        forall|i: int| 0 <= i < text.len() ==> is_digit(#[trigger] text[i]),
    ensures
        text == zeros(k) + decimal(digits_value(text)),
    decreases text.len(),
{
    let last = text.last();
    let d = (last as nat - '0' as nat) as nat;
    assert(is_digit(text[text.len() - 1]));
    assert(digit(d) == last);
    let before = text.drop_last();
    let v = digits_value(before);
    if text.len() == 1 {
        assert(digits_value(before) == 0);
        assert(text =~= zeros(0) + decimal(digits_value(text)));
        0
    } else {
        assert forall|i: int| 0 <= i < before.len() implies is_digit(#[trigger] before[i]) by {
            assert(before[i] == text[i]);
        }
        let k = lemma_digits(before);
        let n = digits_value(text);
        assert(n == v * 10 + d);
        assert(text =~= before.push(last));
        if v > 0 {
            assert(n / 10 == v && n % 10 == d);
            assert(decimal(n) == decimal(v).push(last));
            assert(text =~= zeros(k) + decimal(n));
            k
        } else {
            assert(decimal(v) =~= seq!['0']);
            assert(zeros(k) + decimal(v) =~= zeros(k + 1));
            assert(decimal(n) =~= seq![last]);
            assert(text =~= zeros(k + 1) + decimal(n));
            k + 1
        }
    }
}

/// A text is read as `n` exactly where it is the decimal digits of `n` with any zeros in front and a
/// plus sign in front of them or none, and `n` is not above the largest number.
pub proof fn law_numbers_are_what_their_digits_write(text: Seq<char>, max: nat, n: nat)
    ensures
        number(text, max) == Some(n) <==> n <= max && exists|k: nat|
            text == #[trigger] zeros(k) + decimal(n) || text == seq!['+'] + (zeros(k) + decimal(n)),
{
    if number(text, max) == Some(n) {
        let k = lemma_digits(unsigned(text));
        assert(unsigned(text) == zeros(k) + decimal(n));
        if text[0] == '+' {
            assert(text =~= seq!['+'] + unsigned(text));
        }
    }
    if n <= max && exists|k: nat|
        text == #[trigger] zeros(k) + decimal(n) || text == seq!['+'] + (zeros(k) + decimal(n)) {
        let k = choose|k: nat|
            text == #[trigger] zeros(k) + decimal(n) || text == seq!['+'] + (zeros(k) + decimal(n));
        let digits = zeros(k) + decimal(n);
        lemma_decimal(n);
        lemma_zeros_in_front(k, decimal(n));
        assert forall|i: int| 0 <= i < digits.len() implies is_digit(#[trigger] digits[i]) by {
            if i >= k {
                assert(digits[i] == decimal(n)[i - k]);
            }
        }
        assert(is_digit(digits[0]));
        if text != digits {
            assert(text.skip(1) =~= digits);
        }
        assert(unsigned(text) == digits);
    }
}

/// Reading a number gives its value, or the error of its text.
pub proof fn law_reading_gives_the_number(text: Seq<char>, n: usize, m: u16)
    ensures
        read_usize(text) == Ok::<usize, std::num::ParseIntError>(n) <==> number(
            text,
            usize::MAX as nat,
        ) == Some(n as nat),
        read_u16(text) == Ok::<u16, std::num::ParseIntError>(m) <==> number(text, 65535) == Some(
            m as nat,
        ),
        read_usize(text) matches Err(e) ==> e == usize_error(text),
        read_u16(text) matches Err(e) ==> e == u16_error(text),
{
}

/// The texts of parts are those of each part, in order.
pub proof fn law_texts_are_those_of_the_parts(parts: Seq<&str>, i: int)
    requires
        0 <= i < parts.len(),
    ensures
        texts(parts).len() == parts.len(),
        texts(parts)[i] == parts[i]@,
{
}

} // verus!
