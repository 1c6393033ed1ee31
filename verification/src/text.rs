//! Text as sequences of characters: comparison, search, numbers.

use vstd::prelude::*;
use vstd::string::*;
use vstd::utf8::*;

verus! {

/// Whether two texts are the same.
pub fn str_eq(a: &str, b: &str) -> (same: bool)
    ensures
        same == (a@ == b@),
{
    broadcast use encode_utf8_decode_utf8;

    let left = a.as_bytes();
    let right = b.as_bytes();
    if left.len() != right.len() {
        return false;
    }
    let mut i: usize = 0;
    while i < left.len()
        invariant
            left@.len() == right@.len(),
            i <= left@.len(),
            left@ == encode_utf8(a@),
            right@ == encode_utf8(b@),
            forall|j: int| 0 <= j < i ==> left@[j] == right@[j],
        decreases left@.len() - i,
    {
        if left[i] != right[i] {
            return false;
        }
        i = i + 1;
    }
    assert(left@ =~= right@);
    assert(decode_utf8(encode_utf8(a@)) == a@);
    assert(decode_utf8(encode_utf8(b@)) == b@);
    true
}

/// What a text says, where there is one.
pub open spec fn opt_str(s: Option<&str>) -> Option<Seq<char>> {
    match s {
        Some(text) => Some(text@),
        None => None,
    }
}

/// What the strings of a list say.
pub open spec fn texts(list: Seq<String>) -> Seq<Seq<char>> {
    list.map_values(|s: String| s@)
}

/// Copies a list of texts.
pub fn clone_texts(list: &Vec<String>) -> (r: Vec<String>)
    ensures
        r@ == list@,
{
    let mut r: Vec<String> = Vec::new();
    let mut i: usize = 0;
    while i < list.len()
        invariant
            i <= list@.len(),
            r@ == list@.take(i as int),
        decreases list@.len() - i,
    {
        r.push(list[i].clone());
        i = i + 1;
        assert(r@ =~= list@.take(i as int));
    }
    assert(list@.take(i as int) =~= list@);
    r
}

/// The characters of an optional text.
pub open spec fn opt_text(s: Option<String>) -> Option<Seq<char>> {
    match s {
        Some(text) => Some(text@),
        None => None,
    }
}

/// Whether two optional texts are the same.
pub fn opt_str_eq(a: &Option<String>, b: &Option<String>) -> (same: bool)
    ensures
        same == (opt_text(*a) == opt_text(*b)),
{
    match (a, b) {
        (Some(x), Some(y)) => str_eq(x.as_str(), y.as_str()),
        (None, None) => true,
        _ => false,
    }
}

/// An equal optional text.
pub fn opt_clone(s: &Option<String>) -> (r: Option<String>)
    ensures
        r == *s,
{
    match s {
        Some(text) => Some(text.clone()),
        None => None,
    }
}

/// The characters of a text, one by one.
pub fn chars_of(s: &str) -> (chars: Vec<char>)
    ensures
        chars@ == s@,
{
    let mut chars: Vec<char> = Vec::new();
    for c in it: s.chars()
        invariant
            chars@ == it.seq().take(it.index()),
            it.seq() == s@,
    {
        chars.push(c);
    }
    chars
}

/// The text made of a run of characters.
pub fn text_of(chars: &Vec<char>, from: usize, to: usize) -> (s: String)
    requires
        from <= to <= chars@.len(),
    ensures
        s@ == chars@.subrange(from as int, to as int),
{
    let mut s = String::new();
    let mut i: usize = from;
    while i < to
        invariant
            from <= i <= to <= chars@.len(),
            s@ == chars@.subrange(from as int, i as int),
        decreases to - i,
    {
        s.push(chars[i]);
        i = i + 1;
        assert(s@ =~= chars@.subrange(from as int, i as int));
    }
    s
}

/// The decimal digit `d`.
pub open spec fn digit_char(d: nat) -> char {
    (48 + d) as char
}

/// A number in decimal, without leading zeros.
pub open spec fn dec_text(n: nat) -> Seq<char>
    decreases n,
{
    if n < 10 {
        seq![digit_char(n)]
    } else {
        dec_text(n / 10).push(digit_char(n % 10))
    }
}

/// An integer in decimal, with a minus sign where it is negative.
pub open spec fn int_text(v: int) -> Seq<char> {
    if v < 0 {
        seq!['-'] + dec_text((-v) as nat)
    } else {
        dec_text(v as nat)
    }
}

/// Writes a number in decimal.
pub fn u64_text(n: u64) -> (s: String)
    ensures
        s@ == dec_text(n as nat),
    decreases n,
{
    let last: u8 = 48 + (n % 10) as u8;
    let mut s = if n < 10 {
        String::new()
    } else {
        u64_text(n / 10)
    };
    s.push(last as char);
    assert(s@ =~= dec_text(n as nat));
    s
}

/// Writes a signed number in decimal.
pub fn i64_text(v: i64) -> (s: String)
    ensures
        s@ == int_text(v as int),
{
    if v < 0 {
        let magnitude: u64 = (-(v + 1)) as u64 + 1;
        let mut s = String::new();
        s.push('-');
        let digits = u64_text(magnitude);
        s.append(digits.as_str());
        assert(s@ =~= int_text(v as int));
        s
    } else {
        u64_text(v as u64)
    }
}

pub open spec fn is_digit(c: char) -> bool {
    '0' <= c && c <= '9'
}

/// How many characters at the start of a text are decimal digits.
pub open spec fn leading_digits(s: Seq<char>) -> nat
    decreases s.len(),
{
    if s.len() == 0 || !is_digit(s[0]) {
        0
    } else {
        1 + leading_digits(s.drop_first())
    }
}

/// The value of a run of decimal digits.
pub open spec fn digits_value(s: Seq<char>) -> nat
    decreases s.len(),
{
    if s.len() == 0 {
        0
    } else {
        digits_value(s.drop_last()) * 10 + (s.last() as nat - 48) as nat
    }
}

proof fn lemma_dec_text(n: nat)
    ensures
        dec_text(n).len() > 0,
        digits_value(dec_text(n)) == n,
        forall|i: int| 0 <= i < dec_text(n).len() ==> is_digit(#[trigger] dec_text(n)[i]),
    decreases n,
{
    if n < 10 {
        assert(dec_text(n).drop_last() =~= Seq::<char>::empty());
        assert(digits_value(Seq::<char>::empty()) == 0);
    } else {
        lemma_dec_text(n / 10);
        assert(dec_text(n).drop_last() =~= dec_text(n / 10));
    }
}

/// A number is written with digits, after a minus sign where it is negative.
pub(crate) proof fn lemma_int_text(v: int)
    ensures
        forall|c: char| #[trigger] int_text(v).contains(c) ==> is_digit(c) || c == '-',
{
    lemma_dec_text(
        if v < 0 {
            (-v) as nat
        } else {
            v as nat
        },
    );
}

/// Different numbers are written differently.
pub proof fn int_texts_differ(a: int, b: int)
    requires
        a != b,
    ensures
        int_text(a) != int_text(b),
{
    let m = (if a < 0 {
        -a
    } else {
        a
    }) as nat;
    let n = (if b < 0 {
        -b
    } else {
        b
    }) as nat;
    lemma_dec_text(m);
    lemma_dec_text(n);
    if int_text(a) == int_text(b) {
        if a < 0 {
            assert(int_text(a)[0] == '-');
            assert(int_text(a).skip(1) =~= dec_text(m));
            if b < 0 {
                assert(int_text(b).skip(1) =~= dec_text(n));
            } else {
                assert(is_digit(int_text(b)[0]));
            }
        } else {
            assert(is_digit(int_text(a)[0]));
        }
    }
}

/// Why a text is not a number of the wanted range.
#[derive(Clone, Copy, Debug, PartialEq, Eq, Structural)]
pub enum IntError {
    Empty,
    InvalidDigit,
    TooLarge,
}

/// What a text says as an unsigned number of at most `max`: an optional plus
/// sign, then digits only.
pub open spec fn uint_of(s: Seq<char>, max: nat) -> Result<nat, IntError> {
    if s.len() == 0 {
        Err(IntError::Empty)
    } else {
        let digits = if s[0] == '+' && s.len() > 1 {
            s.skip(1)
        } else {
            s
        };
        let n = leading_digits(digits);
        if digits_value(digits.take(n as int)) > max {
            Err(IntError::TooLarge)
        } else if n < digits.len() {
            Err(IntError::InvalidDigit)
        } else {
            Ok(digits_value(digits))
        }
    }
}

pub(crate) proof fn lemma_leading_digits(s: Seq<char>, n: nat)
    requires
        n <= s.len(),
        forall|i: int| 0 <= i < n ==> is_digit(#[trigger] s[i]),
    ensures
        n <= leading_digits(s) <= s.len(),
        n < s.len() && !is_digit(s[n as int]) ==> leading_digits(s) == n,
    decreases s.len(),
{
    if s.len() > 0 {
        if n > 0 {
            let rest = s.drop_first();
            assert(forall|i: int| 0 <= i < n - 1 ==> rest[i] == s[i + 1]);
            lemma_leading_digits(rest, (n - 1) as nat);
        } else {
            if is_digit(s[0]) {
                lemma_leading_digits(s.drop_first(), 0);
            }
        }
    }
}

proof fn lemma_digits_value_grows(s: Seq<char>, n: nat, m: nat)
    requires
        n <= m <= s.len(),
    ensures
        digits_value(s.take(n as int)) <= digits_value(s.take(m as int)),
    decreases m,
{
    if n < m {
        lemma_digits_value_grows(s, n, (m - 1) as nat);
        assert(s.take(m as int).drop_last() =~= s.take(m - 1));
    }
}

/// Reads an unsigned number of at most `max`.
pub fn parse_uint(s: &str, max: u64) -> (r: Result<u64, IntError>)
    ensures
        match r {
            Ok(n) => uint_of(s@, max as nat) == Ok::<nat, IntError>(n as nat),
            Err(e) => uint_of(s@, max as nat) == Err::<nat, IntError>(e),
        },
        r matches Ok(n) ==> n <= max,
{
    let chars = chars_of(s);
    if chars.len() == 0 {
        return Err(IntError::Empty);
    }
    let from: usize = if chars[0] == '+' && chars.len() > 1 {
        1
    } else {
        0
    };
    let ghost digits = if s@[0] == '+' && s@.len() > 1 {
        s@.skip(1)
    } else {
        s@
    };
    assert(digits =~= chars@.skip(from as int));
    let mut value: u64 = 0;
    let mut i: usize = from;
    while i < chars.len()
        invariant
            from <= i <= chars@.len(),
            from <= 1,
            chars@ == s@,
            s@.len() > 0,
            digits == chars@.skip(from as int),
            uint_of(s@, max as nat) == (if digits_value(
                digits.take(leading_digits(digits) as int),
            ) > max {
                Err::<nat, IntError>(IntError::TooLarge)
            } else if leading_digits(digits) < digits.len() {
                Err::<nat, IntError>(IntError::InvalidDigit)
            } else {
                Ok::<nat, IntError>(digits_value(digits))
            }),
            value <= max,
            value == digits_value(digits.take(i - from)),
            forall|j: int| 0 <= j < i - from ==> is_digit(#[trigger] digits[j]),
        decreases chars@.len() - i,
    {
        let c = chars[i];
        let ghost n = (i - from) as nat;
        proof {
            lemma_leading_digits(digits, n);
            assert(digits[n as int] == c);
        }
        if c < '0' || c > '9' {
            return Err(IntError::InvalidDigit);
        }
        proof {
            assert forall|j: int| 0 <= j < n + 1 implies is_digit(#[trigger] digits[j]) by {}
            lemma_leading_digits(digits, n + 1);
            lemma_digits_value_grows(digits, n + 1, leading_digits(digits));
            assert(digits.take(n as int + 1).drop_last() =~= digits.take(n as int));
        }
        let d: u64 = (c as u32 - 48) as u64;
        if value > max / 10 || d > max - value * 10 {
            proof {
                if value > max / 10 {
                    assert(value * 10 >= max - max % 10 + 10);
                }
            }
            return Err(IntError::TooLarge);
        }
        value = value * 10 + d;
        i = i + 1;
    }
    proof {
        lemma_leading_digits(digits, digits.len());
        assert(digits.take(digits.len() as int) =~= digits);
    }
    Ok(value)
}

/// Reads an unsigned number of 64 bits.
pub fn parse_u64(s: &str) -> (r: Result<u64, IntError>)
    ensures
        match r {
            Ok(n) => uint_of(s@, u64::MAX as nat) == Ok::<nat, IntError>(n as nat),
            Err(e) => uint_of(s@, u64::MAX as nat) == Err::<nat, IntError>(e),
        },
{
    parse_uint(s, u64::MAX)
}

impl IntError {
    /// The error in words.
    pub open spec fn words(self) -> Seq<char> {
        match self {
            IntError::Empty => "cannot parse integer from empty string"@,
            IntError::InvalidDigit => "invalid digit found in string"@,
            IntError::TooLarge => "number too large to fit in target type"@,
        }
    }

    /// Says the error in words.
    pub fn text(&self) -> (s: String)
        ensures
            s@ == self.words(),
    {
        match self {
            IntError::Empty => "cannot parse integer from empty string".to_owned(),
            IntError::InvalidDigit => "invalid digit found in string".to_owned(),
            IntError::TooLarge => "number too large to fit in target type".to_owned(),
        }
    }
}

/// The characters that Unicode counts as white space.
pub open spec fn white_space(c: char) -> bool {
    let n = c as u32;
    ||| 0x09 <= n <= 0x0d
    ||| n == 0x20
    ||| n == 0x85
    ||| n == 0xa0
    ||| n == 0x1680
    ||| 0x2000 <= n <= 0x200a
    ||| n == 0x2028
    ||| n == 0x2029
    ||| n == 0x202f
    ||| n == 0x205f
    ||| n == 0x3000
}

/// Whether a character is white space.
pub fn is_white_space(c: char) -> (white: bool)
    ensures
        white == white_space(c),
{
    let n: u32 = c as u32;
    (0x09 <= n && n <= 0x0d) || n == 0x20 || n == 0x85 || n == 0xa0 || n == 0x1680 || (0x2000 <= n
        && n <= 0x200a) || n == 0x2028 || n == 0x2029 || n == 0x202f || n == 0x205f || n == 0x3000
}

/// Whether all characters of a text are ASCII.
pub open spec fn ascii(s: Seq<char>) -> bool {
    forall|i: int| 0 <= i < s.len() ==> (#[trigger] s[i]) as u32 <= 0x7f
}

/// Whether all characters of a text are ASCII.
pub fn is_ascii(s: &str) -> (r: bool)
    ensures
        r == ascii(s@),
{
    let chars = chars_of(s);
    let mut i: usize = 0;
    while i < chars.len()
        invariant
            chars@ == s@,
            i <= chars@.len(),
            forall|j: int| 0 <= j < i ==> (#[trigger] s@[j]) as u32 <= 0x7f,
        decreases chars@.len() - i,
    {
        let n: u32 = chars[i] as u32;
        if n > 0x7f {
            assert(s@[i as int] as u32 > 0x7f);
            return false;
        }
        i = i + 1;
    }
    true
}

/// Whether a text holds white space only.
pub fn is_blank(s: &str) -> (blank: bool)
    ensures
        blank == (forall|i: int| 0 <= i < s@.len() ==> white_space(#[trigger] s@[i])),
{
    let chars = chars_of(s);
    let mut i: usize = 0;
    while i < chars.len()
        invariant
            chars@ == s@,
            i <= chars@.len(),
            forall|j: int| 0 <= j < i ==> white_space(#[trigger] s@[j]),
        decreases chars@.len() - i,
    {
        if !is_white_space(chars[i]) {
            assert(!white_space(s@[i as int]));
            return false;
        }
        i = i + 1;
    }
    true
}

/// Whether `needle` stands in `hay` at position `at`.
pub open spec fn occurs_at(hay: Seq<char>, needle: Seq<char>, at: int) -> bool {
    0 <= at && at + needle.len() <= hay.len() && hay.subrange(at, at + needle.len()) == needle
}

/// The first position from `from` on at which `needle` stands in `hay`.
pub open spec fn first_at(hay: Seq<char>, needle: Seq<char>, from: int) -> Option<int>
    decreases hay.len() - from + 1,
{
    if from < 0 || from + needle.len() > hay.len() {
        None
    } else if occurs_at(hay, needle, from) {
        Some(from)
    } else {
        first_at(hay, needle, from + 1)
    }
}

proof fn lemma_first_at(hay: Seq<char>, needle: Seq<char>, from: int)
    requires
        0 <= from,
    ensures
        match first_at(hay, needle, from) {
            Some(at) => from <= at && occurs_at(hay, needle, at) && forall|i: int|
                from <= i < at ==> !occurs_at(hay, needle, i),
            None => forall|i: int| from <= i ==> !occurs_at(hay, needle, i),
        },
    decreases hay.len() - from + 1,
{
    if from + needle.len() <= hay.len() && !occurs_at(hay, needle, from) {
        lemma_first_at(hay, needle, from + 1);
    }
}

fn stands_at(hay: &Vec<char>, needle: &Vec<char>, at: usize) -> (r: bool)
    requires
        at + needle@.len() <= hay@.len(),
    ensures
        r == occurs_at(hay@, needle@, at as int),
{
    let end: usize = hay.len();
    let mut i: usize = 0;
    while i < needle.len()
        invariant
            end == hay@.len(),
            at + needle@.len() <= hay@.len(),
            i <= needle@.len(),
            forall|j: int| 0 <= j < i ==> hay@[at + j] == needle@[j],
        decreases needle@.len() - i,
    {
        if hay[at + i] != needle[i] {
            assert(hay@.subrange(at as int, at + needle@.len())[i as int] != needle@[i as int]);
            return false;
        }
        i = i + 1;
    }
    assert(hay@.subrange(at as int, at + needle@.len()) =~= needle@);
    true
}

/// Finds `needle` in `hay` from position `from` on.
pub fn find_from(hay: &Vec<char>, needle: &Vec<char>, from: usize) -> (r: Option<usize>)
    requires
        from <= hay@.len(),
    ensures
        match r {
            Some(at) => first_at(hay@, needle@, from as int) == Some(at as int),
            None => first_at(hay@, needle@, from as int) is None,
        },
{
    let mut at: usize = from;
    while needle.len() <= hay.len() - at
        invariant
            from <= at <= hay@.len(),
            first_at(hay@, needle@, from as int) == first_at(hay@, needle@, at as int),
        decreases hay@.len() - at,
    {
        if stands_at(hay, needle, at) {
            return Some(at);
        }
        if at == hay.len() {
            assert(needle@.len() == 0);
            assert(hay@.subrange(at as int, at as int) =~= needle@);
            return None;
        }
        at = at + 1;
    }
    None
}

/// Whether `needle` stands anywhere in `hay`.
pub open spec fn contains_text(hay: Seq<char>, needle: Seq<char>) -> bool {
    exists|at: int| occurs_at(hay, needle, at)
}

/// Whether `needle` stands anywhere in `hay`.
pub fn contains(hay: &str, needle: &str) -> (r: bool)
    ensures
        r == contains_text(hay@, needle@),
{
    let h = chars_of(hay);
    let n = chars_of(needle);
    proof {
        lemma_first_at(hay@, needle@, 0);
    }
    find_from(&h, &n, 0).is_some()
}

/// A text cut at each occurrence of `needle`, from the left; the occurrences
/// themselves are left out.
pub open spec fn pieces(hay: Seq<char>, needle: Seq<char>, from: int) -> Seq<Seq<char>>
    decreases hay.len() - from,
    when 0 <= from <= hay.len() && needle.len() > 0
    via pieces_decreases
{
    match first_at(hay, needle, from) {
        Some(at) => seq![hay.subrange(from, at)] + pieces(hay, needle, at + needle.len()),
        None => seq![hay.subrange(from, hay.len() as int)],
    }
}

#[via_fn]
proof fn pieces_decreases(hay: Seq<char>, needle: Seq<char>, from: int) {
    lemma_first_at(hay, needle, from);
}

/// Cuts a text at each occurrence of `needle`.
pub fn split_on(hay: &str, needle: &str) -> (r: Vec<String>)
    requires
        needle@.len() > 0,
    ensures
        texts(r@) == pieces(hay@, needle@, 0),
{
    let h = chars_of(hay);
    let n = chars_of(needle);
    let end: usize = h.len();
    let mut r: Vec<String> = Vec::new();
    let mut from: usize = 0;
    assert(texts(r@) + pieces(hay@, needle@, 0) =~= pieces(hay@, needle@, 0));
    loop
        invariant
            h@ == hay@,
            n@ == needle@,
            needle@.len() > 0,
            end == h@.len(),
            from <= end,
            texts(r@) + pieces(hay@, needle@, from as int) == pieces(
                hay@,
                needle@,
                0,
            ),
        decreases end - from,
    {
        let ghost before = texts(r@);
        proof {
            lemma_first_at(hay@, needle@, from as int);
        }
        match find_from(&h, &n, from) {
            Some(at) => {
                let piece = text_of(&h, from, at);
                r.push(piece);
                from = at + n.len();
                assert(texts(r@) + pieces(hay@, needle@, from as int) =~= before
                    + (seq![piece@] + pieces(hay@, needle@, from as int)));
            },
            None => {
                let piece = text_of(&h, from, end);
                r.push(piece);
                assert(texts(r@) =~= before + seq![piece@]);
                return r;
            },
        }
    }
}

/// What follows `prefix` in a text that starts with it.
pub fn strip_prefix(s: &str, prefix: &str) -> (r: Option<String>)
    ensures
        match r {
            Some(rest) => prefix@.is_prefix_of(s@) && rest@ == s@.skip(prefix@.len() as int),
            None => !prefix@.is_prefix_of(s@),
        },
{
    let chars = chars_of(s);
    let start = chars_of(prefix);
    if start.len() <= chars.len() && stands_at(&chars, &start, 0) {
        let rest = text_of(&chars, start.len(), chars.len());
        assert(rest@ =~= s@.skip(prefix@.len() as int));
        Some(rest)
    } else {
        proof {
            if prefix@.is_prefix_of(s@) {
                assert(s@.subrange(0, prefix@.len() as int) =~= prefix@);
            }
        }
        None
    }
}

/// The code of a character, with the capitals of ASCII counted as small
/// letters.
pub open spec fn folded(c: char) -> int {
    if 'A' <= c && c <= 'Z' {
        c as int + 32
    } else {
        c as int
    }
}

/// Whether two texts are the same but for the case of ASCII letters.
pub open spec fn same_ignoring_case(a: Seq<char>, b: Seq<char>) -> bool {
    a.len() == b.len() && forall|i: int| 0 <= i < a.len() ==> folded(#[trigger] a[i]) == folded(b[i])
}

fn fold(c: char) -> (n: u32)
    ensures
        n == folded(c),
{
    let n: u32 = c as u32;
    if 'A' <= c && c <= 'Z' {
        n + 32
    } else {
        n
    }
}

/// Whether two texts are the same but for the case of ASCII letters.
pub fn eq_ignore_ascii_case(a: &str, b: &str) -> (same: bool)
    ensures
        same == same_ignoring_case(a@, b@),
{
    let left = chars_of(a);
    let right = chars_of(b);
    if left.len() != right.len() {
        return false;
    }
    let mut i: usize = 0;
    while i < left.len()
        invariant
            left@ == a@,
            right@ == b@,
            left@.len() == right@.len(),
            i <= left@.len(),
            forall|j: int| 0 <= j < i ==> folded(#[trigger] a@[j]) == folded(b@[j]),
        decreases left@.len() - i,
    {
        if fold(left[i]) != fold(right[i]) {
            assert(folded(a@[i as int]) != folded(b@[i as int]));
            return false;
        }
        i = i + 1;
    }
    true
}

/// A number in decimal has digits only, the first of which is 0 for 0 alone, and
/// the digits say the number.
pub proof fn decimals_say_their_number(n: nat)
    ensures
        dec_text(n).len() > 0,
        forall|i: int| 0 <= i < dec_text(n).len() ==> '0' <= #[trigger] dec_text(n)[i] <= '9',
        dec_text(n)[0] == '0' <==> n == 0,
        digits_value(dec_text(n)) == n,
        int_text(n as int) == dec_text(n),
        n > 0 ==> int_text(-n) == seq!['-'] + dec_text(n),
    decreases n,
{
    lemma_dec_text(n);
    if n >= 10 {
        decimals_say_their_number(n / 10);
        lemma_dec_text(n / 10);
        assert(dec_text(n)[0] == dec_text(n / 10)[0]);
    }
}

/// Digits say ten times what they say without the last of them, and what that
/// one says.
pub proof fn digits_count_by_tens(s: Seq<char>, d: u8)
    requires
        d < 10,
    ensures
        digits_value(Seq::<char>::empty()) == 0,
        digits_value(s.push((48 + d) as char)) == digits_value(s) * 10 + d,
{
    assert(s.push((48 + d) as char).drop_last() =~= s);
}

/// A number is read back as it was written, with a plus sign or without, unless
/// it is too large.
pub proof fn numbers_are_read_back(n: nat, max: nat)
    ensures
        n <= max ==> uint_of(dec_text(n), max) == Ok::<nat, IntError>(n),
        n <= max ==> uint_of(seq!['+'] + dec_text(n), max) == Ok::<nat, IntError>(n),
        n > max ==> uint_of(dec_text(n), max) == Err::<nat, IntError>(IntError::TooLarge),
{
    let s = dec_text(n);
    lemma_dec_text(n);
    lemma_leading_digits(s, s.len());
    assert(s.take(s.len() as int) =~= s);
    assert(is_digit(s[0]));
    assert((seq!['+'] + s).skip(1) =~= s);
}

/// A text is a number exactly where it is digits, after a plus sign or not, that
/// do not say too much, and the number is what they say.  All else is refused: no
/// text at all, one that says too much, and one with anything else in it.
pub proof fn numbers_are_digits(digits: Seq<char>, max: nat)
    requires
        digits.len() > 0,
        forall|i: int| 0 <= i < digits.len() ==> '0' <= #[trigger] digits[i] <= '9',
    ensures
        uint_of(digits, max) == (if digits_value(digits) <= max {
            Ok::<nat, IntError>(digits_value(digits))
        } else {
            Err::<nat, IntError>(IntError::TooLarge)
        }),
        uint_of(seq!['+'] + digits, max) == uint_of(digits, max),
        uint_of(Seq::<char>::empty(), max) == Err::<nat, IntError>(IntError::Empty),
{
    lemma_leading_digits(digits, digits.len());
    assert(digits.take(digits.len() as int) =~= digits);
    assert(is_digit(digits[0]));
    assert((seq!['+'] + digits).skip(1) =~= digits);
}

/// A text with a character in it that is no digit, but for a plus sign that comes
/// first, is no number.
pub proof fn other_texts_are_no_numbers(s: Seq<char>, max: nat, i: int)
    requires
        0 <= i < s.len(),
        s[i] < '0' || s[i] > '9',
        i > 0 || s[0] != '+' || s.len() == 1,
    ensures
        uint_of(s, max) is Err,
        uint_of(s, max) != Err::<nat, IntError>(IntError::Empty),
{
    let digits = if s[0] == '+' && s.len() > 1 {
        s.skip(1)
    } else {
        s
    };
    let j = i - (s.len() - digits.len());
    assert(digits[j] == s[i]);
    lemma_leading_digits(digits, 0);
    if leading_digits(digits) == digits.len() {
        lemma_all_digits(digits, j);
    }
}

pub(crate) proof fn lemma_all_digits(s: Seq<char>, i: int)
    requires
        leading_digits(s) == s.len(),
        0 <= i < s.len(),
    ensures
        is_digit(s[i]),
    decreases s.len(),
{
    lemma_leading_digits(s.drop_first(), 0);
    if i > 0 {
        lemma_all_digits(s.drop_first(), i - 1);
        assert(s.drop_first()[i - 1] == s[i]);
    }
}

/// A text stands in another exactly where that one is the text with something
/// before and after it.
pub proof fn texts_are_found(before: Seq<char>, needle: Seq<char>, after: Seq<char>)
    ensures
        contains_text(before + needle + after, needle),
        forall|hay: Seq<char>, at: int|
            occurs_at(hay, needle, at) ==> hay == #[trigger] hay.take(at) + needle + hay.skip(
                at + needle.len(),
            ),
{
    let hay = before + needle + after;
    assert(hay.subrange(before.len() as int, (before.len() + needle.len()) as int) =~= needle);
    assert(occurs_at(hay, needle, before.len() as int));
    assert forall|hay: Seq<char>, at: int| occurs_at(hay, needle, at) implies hay
        == #[trigger] hay.take(at) + needle + hay.skip(at + needle.len()) by {
        assert(hay =~= hay.take(at) + hay.subrange(at, at + needle.len()) + hay.skip(
            at + needle.len(),
        ));
    }
}

/// The texts of a list, one after the other, with another between any two.
pub open spec fn joined_by(list: Seq<Seq<char>>, needle: Seq<char>) -> Seq<char>
    decreases list.len(),
{
    if list.len() == 0 {
        Seq::empty()
    } else if list.len() == 1 {
        list[0]
    } else {
        list[0] + needle + joined_by(list.drop_first(), needle)
    }
}

/// The pieces of a text make it up again, and what it was cut at stands in none
/// of them.
pub proof fn pieces_make_up_the_text(hay: Seq<char>, needle: Seq<char>, from: int)
    requires
        0 <= from <= hay.len(),
        needle.len() > 0,
    ensures
        pieces(hay, needle, from).len() > 0,
        joined_by(pieces(hay, needle, from), needle) == hay.skip(from),
        forall|i: int|
            0 <= i < pieces(hay, needle, from).len() ==> !contains_text(
                #[trigger] pieces(hay, needle, from)[i],
                needle,
            ),
    decreases hay.len() - from,
{
    lemma_first_at(hay, needle, from);
    let all = pieces(hay, needle, from);
    let end = match first_at(hay, needle, from) {
        Some(at) => at,
        None => hay.len() as int,
    };
    let first = hay.subrange(from, end);
    assert(all[0] == first);
    assert(!contains_text(first, needle)) by {
        if contains_text(first, needle) {
            let at = choose|at: int| occurs_at(first, needle, at);
            assert(hay.subrange(from + at, from + at + needle.len()) =~= first.subrange(
                at,
                at + needle.len(),
            ));
            assert(occurs_at(hay, needle, from + at));
        }
    }
    match first_at(hay, needle, from) {
        Some(at) => {
            let next = at + needle.len();
            let rest = pieces(hay, needle, next);
            pieces_make_up_the_text(hay, needle, next);
            assert(all.drop_first() =~= rest);
            assert(all.len() == rest.len() + 1);
            assert(hay.skip(from) =~= first + hay.subrange(at, next) + hay.skip(next));
            assert forall|i: int| 0 <= i < all.len() implies !contains_text(
                #[trigger] all[i],
                needle,
            ) by {
                if i > 0 {
                    assert(all[i] == rest[i - 1]);
                }
            }
        },
        None => {
            assert(hay.skip(from) =~= first);
        },
    }
}

/// Two texts are the same but for case exactly where each character of one is
/// that of the other, or the same letter of ASCII in the other case.
pub proof fn case_is_all_that_may_differ(a: Seq<char>, b: Seq<char>)
    ensures
        same_ignoring_case(a, b) <==> a.len() == b.len() && forall|i: int|
            0 <= i < a.len() ==> {
                ||| #[trigger] a[i] == b[i]
                ||| 'A' <= a[i] <= 'Z' && a[i] as int + 32 == b[i] as int
                ||| 'A' <= b[i] <= 'Z' && b[i] as int + 32 == a[i] as int
            },
        same_ignoring_case(a, a),
        same_ignoring_case(a, b) ==> same_ignoring_case(b, a),
{
}

/// An optional text is there where it is, and says what it says; a list of texts
/// has as many, each in its place.
pub proof fn texts_say_what_they_say(s: String, other: Option<String>, list: Seq<String>, i: int)
    ensures
        opt_text(Some(s)) == Some(s@),
        opt_text(other) is None <==> other is None,
        texts(list).len() == list.len(),
        0 <= i < list.len() ==> texts(list)[i] == list[i]@,
{
}

/// As for a text that is owned, so for one that is borrowed.
pub proof fn borrowed_texts_say_what_they_say(s: &str, other: Option<&str>)
    ensures
        opt_str(Some(s)) == Some(s@),
        opt_str(other) is None <==> other is None,
{
}

/// Characters of one byte are those before the one of number 128; a text is made of
/// these alone exactly where each of its parts is.
pub proof fn ascii_texts_are_ascii_throughout(a: Seq<char>, b: Seq<char>, c: char)
    ensures
        ascii(a + b) <==> ascii(a) && ascii(b),
        ascii(seq![c]) <==> c <= '\u{7f}',
        ascii(Seq::empty()),
{
    if ascii(a + b) {
        assert forall|i: int| 0 <= i < a.len() implies (#[trigger] a[i]) as u32 <= 0x7f by {
            assert((a + b)[i] == a[i]);
        }
        assert forall|i: int| 0 <= i < b.len() implies (#[trigger] b[i]) as u32 <= 0x7f by {
            assert((a + b)[a.len() + i] == b[i]);
        }
    }
    assert(seq![c][0] == c);
}

/// White space is a blank, what moves on a line or to another one, and the blanks
/// of other scripts and widths; no letter, digit or mark that can be seen is.
pub proof fn white_space_is_blank(c: char)
    ensures
        white_space(c) <==> c == ' ' || '\t' <= c <= '\r' || c == '\u{85}' || c == '\u{a0}' || c
            == '\u{1680}' || '\u{2000}' <= c <= '\u{200a}' || c == '\u{2028}' || c == '\u{2029}'
            || c == '\u{202f}' || c == '\u{205f}' || c == '\u{3000}',
        '!' <= c <= '~' ==> !white_space(c),
{
}

/// The three ways in which a text is no number are told apart by their words.
pub proof fn number_errors_are_told_apart(a: IntError, b: IntError)
    ensures
        a.words() == b.words() <==> a == b,
        IntError::Empty.words() == "cannot parse integer from empty string"@,
        IntError::InvalidDigit.words() == "invalid digit found in string"@,
        IntError::TooLarge.words() == "number too large to fit in target type"@,
{
    reveal_strlit("cannot parse integer from empty string");
    reveal_strlit("invalid digit found in string");
    reveal_strlit("number too large to fit in target type");
    assert(a.words()[0] == (match a {
        IntError::Empty => 'c',
        IntError::InvalidDigit => 'i',
        IntError::TooLarge => 'n',
    }));
    assert(b.words()[0] == (match b {
        IntError::Empty => 'c',
        IntError::InvalidDigit => 'i',
        IntError::TooLarge => 'n',
    }));
}

} // verus!
