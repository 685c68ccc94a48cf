//! Text utilities over `Seq<char>`: conversions, trimming, splitting,
//! ASCII case folding, substring search and decimal numbers.

use vstd::prelude::*;

verus! {

/// The characters with the Unicode `White_Space` property, which is what
/// `char::is_whitespace` and `str::trim` use.
pub open spec fn is_space(c: char) -> bool {
    ||| c == ' '
    ||| ('\t' <= c && c <= '\r')
    ||| c == '\u{85}'
    ||| c == '\u{a0}'
    ||| c == '\u{1680}'
    ||| ('\u{2000}' <= c && c <= '\u{200a}')
    ||| c == '\u{2028}'
    ||| c == '\u{2029}'
    ||| c == '\u{202f}'
    ||| c == '\u{205f}'
    ||| c == '\u{3000}'
}

/// `s` without its leading white space.
pub open spec fn trim_start(s: Seq<char>) -> Seq<char>
    decreases s.len(),
{
    if s.len() > 0 && is_space(s[0]) {
        trim_start(s.drop_first())
    } else {
        s
    }
}

/// `s` without its trailing white space.
pub open spec fn trim_end(s: Seq<char>) -> Seq<char>
    decreases s.len(),
{
    if s.len() > 0 && is_space(s.last()) {
        trim_end(s.drop_last())
    } else {
        s
    }
}

/// `str::trim`: white space removed at both ends.
pub open spec fn trim(s: Seq<char>) -> Seq<char> {
    trim_end(trim_start(s))
}

/// `str::split(sep)`: the pieces between occurrences of `sep`, always at
/// least one piece.
pub open spec fn split_on(s: Seq<char>, sep: char) -> Seq<Seq<char>>
    decreases s.len(),
{
    if s.len() == 0 {
        seq![Seq::<char>::empty()]
    } else {
        let init = split_on(s.drop_last(), sep);
        if s.last() == sep {
            init.push(Seq::<char>::empty())
        } else {
            init.update(init.len() - 1, init.last().push(s.last()))
        }
    }
}

/// The first piece of `split_on(s, sep)`: everything before the first `sep`.
pub open spec fn before_first(s: Seq<char>, sep: char) -> Seq<char>
    decreases s.len(),
{
    if s.len() == 0 {
        s
    } else if s[0] == sep {
        Seq::<char>::empty()
    } else {
        seq![s[0]] + before_first(s.drop_first(), sep)
    }
}

pub proof fn lemma_split_on_nonempty(s: Seq<char>, sep: char)
    ensures
        split_on(s, sep).len() >= 1,
    decreases s.len(),
{
    if s.len() > 0 {
        lemma_split_on_nonempty(s.drop_last(), sep);
    }
}

/// The views of a vector of character vectors.
pub open spec fn views(v: Seq<Vec<char>>) -> Seq<Seq<char>> {
    v.map_values(|p: Vec<char>| p@)
}

pub fn is_space_char(c: char) -> (b: bool)
    ensures
        b == is_space(c),
{
    c == ' ' || ('\t' <= c && c <= '\r') || c == '\u{85}' || c == '\u{a0}' || c == '\u{1680}'
        || ('\u{2000}' <= c && c <= '\u{200a}') || c == '\u{2028}' || c == '\u{2029}'
        || c == '\u{202f}' || c == '\u{205f}' || c == '\u{3000}'
}

/// The characters of `s`.
pub fn chars_of(s: &str) -> (v: Vec<char>)
    ensures
        v@ == s@,
{
    let mut v: Vec<char> = Vec::new();
    for c in it: s.chars()
        invariant
            v@ == it.seq().take(it.index() as int),
    {
        v.push(c);
    }
    v
}

/// A string holding the characters of `v`.
pub fn string_of(v: &[char]) -> (s: String)
    ensures
        s@ == v@,
{
    let mut s = String::new();
    let mut i: usize = 0;
    while i < v.len()
        invariant
            i <= v.len(),
            s@ == v@.take(i as int),
        decreases v.len() - i,
    {
        s.push(v[i]);
        i += 1;
        assert(v@.take(i as int) == v@.take(i - 1).push(v@[i - 1]));
    }
    assert(v@.take(v.len() as int) == v@);
    s
}

/// A copy of the literal or slice `s` as an owned string.
pub fn owned(s: &str) -> (r: String)
    ensures
        r@ == s@,
{
    s.to_owned()
}

/// Equality of two character sequences.
pub fn chars_eq(a: &[char], b: &[char]) -> (r: bool)
    ensures
        r == (a@ == b@),
{
    if a.len() != b.len() {
        return false;
    }
    let mut i: usize = 0;
    while i < a.len()
        invariant
            a.len() == b.len(),
            i <= a.len(),
            forall|k: int| 0 <= k < i ==> a@[k] == b@[k],
        decreases a.len() - i,
    {
        if a[i] != b[i] {
            return false;
        }
        i += 1;
    }
    assert(a@ =~= b@);
    true
}

/// Equality of two strings, character by character.
pub fn str_eq(a: &str, b: &str) -> (r: bool)
    ensures
        r == (a@ == b@),
{
    let va = chars_of(a);
    let vb = chars_of(b);
    chars_eq(va.as_slice(), vb.as_slice())
}

/// `str::trim` on a character sequence.
pub fn trim_chars(s: &[char]) -> (r: Vec<char>)
    ensures
        r@ == trim(s@),
{
    let n = s.len();
    let mut i: usize = 0;
    assert(s@.skip(0) == s@);
    while i < n && is_space_char(s[i])
        invariant
            n == s.len(),
            i <= n,
            trim_start(s@) == trim_start(s@.skip(i as int)),
        decreases n - i,
    {
        assert(s@.skip(i as int).drop_first() == s@.skip(i + 1));
        i += 1;
    }
    let mut j: usize = n;
    while j > i && is_space_char(s[j - 1])
        invariant
            n == s.len(),
            i <= j <= n,
            trim_end(s@.subrange(i as int, n as int)) == trim_end(s@.subrange(i as int, j as int)),
        decreases j,
    {
        assert(s@.subrange(i as int, j as int).drop_last() == s@.subrange(i as int, j - 1));
        j -= 1;
    }
    assert(s@.skip(i as int) == s@.subrange(i as int, n as int));
    let mut r: Vec<char> = Vec::new();
    let mut k: usize = i;
    while k < j
        invariant
            i <= k <= j <= n,
            n == s.len(),
            r@ == s@.subrange(i as int, k as int),
        decreases j - k,
    {
        r.push(s[k]);
        k += 1;
        assert(r@ == s@.subrange(i as int, k as int));
    }
    r
}

/// `str::trim` on a string.
pub fn trim_str(s: &str) -> (r: String)
    ensures
        r@ == trim(s@),
{
    let v = chars_of(s);
    let t = trim_chars(v.as_slice());
    string_of(t.as_slice())
}

/// `str::split(sep)` on a character sequence.
pub fn split_chars(s: &[char], sep: char) -> (r: Vec<Vec<char>>)
    ensures
        views(r@) == split_on(s@, sep),
        r@.len() >= 1,
{
    let mut pieces: Vec<Vec<char>> = Vec::new();
    let mut cur: Vec<char> = Vec::new();
    let mut i: usize = 0;
    assert(s@.take(0) =~= Seq::<char>::empty());
    assert(views(pieces@).push(cur@) =~= split_on(s@.take(0), sep));
    while i < s.len()
        invariant
            i <= s.len(),
            views(pieces@).push(cur@) == split_on(s@.take(i as int), sep),
        decreases s.len() - i,
    {
        let c = s[i];
        proof {
            assert(s@.take(i + 1).drop_last() == s@.take(i as int));
            assert(s@.take(i + 1).last() == c);
            lemma_split_on_nonempty(s@.take(i as int), sep);
        }
        if c == sep {
            let done = cur;
            pieces.push(done);
            cur = Vec::new();
            assert(views(pieces@).push(cur@) =~= split_on(s@.take(i + 1), sep));
        } else {
            let ghost before = cur@;
            cur.push(c);
            assert(views(pieces@).push(cur@) =~= split_on(s@.take(i + 1), sep));
        }
        i += 1;
    }
    assert(s@.take(s.len() as int) == s@);
    pieces.push(cur);
    proof {
        lemma_split_on_nonempty(s@, sep);
    }
    pieces
}

/// Everything before the first `sep` in `s` (all of `s` when it holds none).
pub fn before_first_chars(s: &[char], sep: char) -> (r: Vec<char>)
    ensures
        r@ == before_first(s@, sep),
{
    let mut r: Vec<char> = Vec::new();
    let mut i: usize = 0;
    assert(s@.skip(0) == s@);
    assert(r@ + s@ =~= s@);
    while i < s.len() && s[i] != sep
        invariant
            i <= s.len(),
            forall|k: int| 0 <= k < i ==> s@[k] != sep,
            r@ == s@.take(i as int),
            before_first(s@, sep) == r@ + before_first(s@.skip(i as int), sep),
        decreases s.len() - i,
    {
        proof {
            let t = s@.skip(i as int);
            assert(t.drop_first() == s@.skip(i + 1));
            assert(t[0] == s@[i as int]);
        }
        r.push(s[i]);
        i += 1;
        assert(r@ =~= s@.take(i as int));
        assert(before_first(s@, sep) =~= r@ + before_first(s@.skip(i as int), sep));
    }
    proof {
        let t = s@.skip(i as int);
        assert(t.len() == 0 || t[0] == sep);
        assert(before_first(t, sep) =~= Seq::<char>::empty());
        assert(r@ + Seq::<char>::empty() =~= r@);
    }
    r
}

} // verus!

verus! {

pub open spec fn is_digit(c: char) -> bool {
    '0' <= c && c <= '9'
}

pub open spec fn digit_value(c: char) -> nat {
    (c as int - '0' as int) as nat
}

/// The character of a decimal digit `d < 10`.
pub open spec fn digit_char(d: nat) -> char {
    (d + 48) as char
}

pub open spec fn all_digits(s: Seq<char>) -> bool {
    forall|i: int| 0 <= i < s.len() ==> is_digit(#[trigger] s[i])
}

/// The number that a run of decimal digits spells.
pub open spec fn digits_value(s: Seq<char>) -> nat
    decreases s.len(),
{
    if s.len() == 0 {
        0
    } else {
        digits_value(s.drop_last()) * 10 + digit_value(s.last())
    }
}

/// What follows an optional leading `+`.
pub open spec fn unsigned_body(s: Seq<char>) -> Seq<char> {
    if s.len() > 0 && s[0] == '+' {
        s.drop_first()
    } else {
        s
    }
}

/// The syntax that `str::parse` accepts for unsigned integers: an optional
/// `+` followed by one or more ASCII digits.
pub open spec fn unsigned_syntax(s: Seq<char>) -> bool {
    unsigned_body(s).len() > 0 && all_digits(unsigned_body(s))
}

/// `str::parse` for an unsigned integer type whose values are below `bound`.
pub open spec fn parse_unsigned(s: Seq<char>, bound: nat) -> Option<nat> {
    if unsigned_syntax(s) && digits_value(unsigned_body(s)) < bound {
        Some(digits_value(unsigned_body(s)))
    } else {
        None
    }
}

/// `str::parse::<i64>()`: an optional sign and one or more ASCII digits,
/// within the range of `i64`.
pub open spec fn parse_i64_spec(s: Seq<char>) -> Option<int> {
    if s.len() > 0 && s[0] == '-' {
        let b = s.drop_first();
        if b.len() > 0 && all_digits(b) && digits_value(b) <= 0x8000_0000_0000_0000 {
            Some(-(digits_value(b) as int))
        } else {
            None
        }
    } else if unsigned_syntax(s) && digits_value(unsigned_body(s)) < 0x8000_0000_0000_0000 {
        Some(digits_value(unsigned_body(s)) as int)
    } else {
        None
    }
}

/// The decimal notation of `n`, as `u64`'s `Display` writes it.
pub open spec fn decimal(n: nat) -> Seq<char>
    decreases n,
{
    if n < 10 {
        seq![digit_char(n)]
    } else {
        decimal(n / 10).push(digit_char(n % 10))
    }
}

/// The decimal notation of a signed number, as `i64`'s `Display` writes it.
pub open spec fn decimal_int(n: int) -> Seq<char> {
    if n < 0 {
        seq!['-'] + decimal((-n) as nat)
    } else {
        decimal(n as nat)
    }
}

/// `s` padded on the left with zeros to at least `width` characters, as the
/// `{:0width$}` format of an unsigned number does.
pub open spec fn zero_pad(s: Seq<char>, width: nat) -> Seq<char> {
    if s.len() >= width {
        s
    } else {
        Seq::new((width - s.len()) as nat, |i: int| '0') + s
    }
}

pub proof fn lemma_digits_value_prefix(s: Seq<char>, k: int)
    requires
        all_digits(s),
        0 <= k <= s.len(),
    ensures
        digits_value(s.take(k)) <= digits_value(s),
    decreases s.len(),
{
    if k < s.len() {
        assert(s.drop_last().take(k) == s.take(k));
        assert(all_digits(s.drop_last()));
        lemma_digits_value_prefix(s.drop_last(), k);
    } else {
        assert(s.take(k) == s);
    }
}

pub proof fn lemma_decimal_digits(n: nat)
    ensures
        decimal(n).len() >= 1,
        all_digits(decimal(n)),
        n < 10 <==> decimal(n).len() == 1,
    decreases n,
{
    if n >= 10 {
        lemma_decimal_digits(n / 10);
    }
}

pub fn is_digit_char(c: char) -> (b: bool)
    ensures
        b == is_digit(c),
{
    '0' <= c && c <= '9'
}

/// Parses an unsigned number below 2^64 as `str::parse::<u64>()` does.
pub fn parse_u64_chars(s: &[char]) -> (r: Option<u64>)
    ensures
        r.is_some() == parse_unsigned(s@, 0x1_0000_0000_0000_0000).is_some(),
        r matches Some(v) ==> parse_unsigned(s@, 0x1_0000_0000_0000_0000) == Some(v as nat),
{
    let start: usize = if s.len() > 0 && s[0] == '+' { 1 } else { 0 };
    let ghost body = unsigned_body(s@);
    assert(body == s@.subrange(start as int, s.len() as int));
    if start == s.len() {
        return None;
    }
    let mut acc: u64 = 0;
    let mut i: usize = start;
    assert(body.take(0) =~= Seq::<char>::empty());
    while i < s.len()
        invariant
            start <= i <= s.len(),
            start < s.len(),
            body == unsigned_body(s@),
            body == s@.subrange(start as int, s.len() as int),
            all_digits(body.take(i - start)),
            acc as nat == digits_value(body.take(i - start)),
        decreases s.len() - i,
    {
        let c = s[i];
        proof {
            assert(body.take(i + 1 - start).drop_last() == body.take(i - start));
            assert(body.take(i + 1 - start).last() == c);
        }
        if !is_digit_char(c) {
            assert(!all_digits(body)) by {
                assert(body[i - start] == c);
            }
            return None;
        }
        let d: u64 = (c as u32 - '0' as u32) as u64;
        let next: u128 = acc as u128 * 10 + d as u128;
        if next > 0xffff_ffff_ffff_ffff {
            proof {
                assert(digits_value(body.take(i + 1 - start)) == next);
                if all_digits(body) {
                    lemma_digits_value_prefix(body, i + 1 - start);
                }
            }
            return None;
        }
        acc = next as u64;
        i += 1;
        assert(all_digits(body.take(i - start)));
    }
    assert(body.take(i - start) == body);
    Some(acc)
}

/// Parses a signed number as `str::parse::<i64>()` does.
pub fn parse_i64_chars(s: &[char]) -> (r: Option<i64>)
    ensures
        r.is_some() == parse_i64_spec(s@).is_some(),
        r matches Some(v) ==> parse_i64_spec(s@) == Some(v as int),
{
    if s.len() > 0 && s[0] == '-' {
        let mut rest: Vec<char> = Vec::new();
        let mut i: usize = 1;
        while i < s.len()
            invariant
                1 <= i <= s.len(),
                rest@ == s@.subrange(1, i as int),
            decreases s.len() - i,
        {
            rest.push(s[i]);
            i += 1;
            assert(rest@ =~= s@.subrange(1, i as int));
        }
        assert(rest@ =~= s@.drop_first());
        if rest.len() > 0 && rest[0] == '+' {
            return None;
        }
        match parse_u64_chars(rest.as_slice()) {
            Some(v) => {
                assert(unsigned_body(rest@) == rest@);
                if v <= 0x8000_0000_0000_0000 {
                    if v == 0x8000_0000_0000_0000 {
                        Some(i64::MIN)
                    } else {
                        Some(-(v as i64))
                    }
                } else {
                    None
                }
            },
            None => {
                assert(unsigned_body(rest@) == rest@);
                None
            },
        }
    } else {
        match parse_u64_chars(s) {
            Some(v) => {
                if v < 0x8000_0000_0000_0000 {
                    Some(v as i64)
                } else {
                    None
                }
            },
            None => None,
        }
    }
}

pub fn digit_to_char(d: u64) -> (c: char)
    requires
        d < 10,
    ensures
        c == digit_char(d as nat),
{
    ((d as u8) + 48u8) as char
}

/// Appends the decimal notation of `n`.
pub fn push_decimal(out: &mut Vec<char>, n: u64)
    ensures
        final(out)@ == old(out)@ + decimal(n as nat),
    decreases n,
{
    if n >= 10 {
        push_decimal(out, n / 10);
    }
    out.push(digit_to_char(n % 10));
    proof {
        if n >= 10 {
            assert(old(out)@ + decimal(n as nat) =~= old(out)@ + decimal((n / 10) as nat) + seq![digit_char((n % 10) as nat)]);
        } else {
            assert(old(out)@ + decimal(n as nat) =~= old(out)@.push(digit_char(n as nat)));
        }
    }
}

/// Appends the decimal notation of a signed `n`.
pub fn push_decimal_i64(out: &mut Vec<char>, n: i64)
    ensures
        final(out)@ == old(out)@ + decimal_int(n as int),
{
    if n < 0 {
        out.push('-');
        let m: u64 = if n == i64::MIN { 0x8000_0000_0000_0000u64 } else { (-n) as u64 };
        push_decimal(out, m);
        assert(final(out)@ =~= old(out)@ + decimal_int(n as int));
    } else {
        push_decimal(out, n as u64);
    }
}

/// `n.to_string()` for a signed number.
pub fn i64_to_string(n: i64) -> (s: String)
    ensures
        s@ == decimal_int(n as int),
{
    let mut v: Vec<char> = Vec::new();
    push_decimal_i64(&mut v, n);
    assert(v@ =~= decimal_int(n as int));
    string_of(v.as_slice())
}

/// Appends `n` zero-padded to `width` digits.
pub fn push_padded(out: &mut Vec<char>, n: u64, width: usize)
    ensures
        final(out)@ == old(out)@ + zero_pad(decimal(n as nat), width as nat),
{
    let mut digits: Vec<char> = Vec::new();
    push_decimal(&mut digits, n);
    assert(digits@ =~= decimal(n as nat));
    let mut k: usize = digits.len();
    let ghost start = out@;
    while k < width
        invariant
            digits.len() <= k,
            k <= width || k == digits.len(),
            out@ == start + Seq::new((k - digits.len()) as nat, |i: int| '0'),
        decreases width - k,
    {
        out.push('0');
        k += 1;
        assert(out@ =~= start + Seq::new((k - digits.len()) as nat, |i: int| '0'));
    }
    let mut j: usize = 0;
    let ghost mid = out@;
    while j < digits.len()
        invariant
            j <= digits.len(),
            out@ == mid + digits@.take(j as int),
        decreases digits.len() - j,
    {
        out.push(digits[j]);
        j += 1;
        assert(out@ =~= mid + digits@.take(j as int));
    }
    assert(digits@.take(digits.len() as int) == digits@);
    if digits.len() >= width {
        assert(k == digits.len());
        assert(out@ =~= start + decimal(n as nat));
    } else {
        assert(out@ =~= start + zero_pad(decimal(n as nat), width as nat));
    }
}

} // verus!

verus! {

/// ASCII lower-casing of one character, as `char::to_ascii_lowercase`.
pub open spec fn lower_char(c: char) -> char {
    if 'A' <= c && c <= 'Z' {
        ((c as int) + 32) as char
    } else {
        c
    }
}

/// `str::to_ascii_lowercase`.
pub open spec fn ascii_lower(s: Seq<char>) -> Seq<char> {
    s.map_values(|c: char| lower_char(c))
}

/// `needle` occurs in `hay` starting at `i`.
pub open spec fn occurs_at(hay: Seq<char>, needle: Seq<char>, i: int) -> bool {
    0 <= i && i + needle.len() <= hay.len() && hay.subrange(i, i + needle.len()) == needle
}

/// `str::contains` for a string pattern.
pub open spec fn contains_seq(hay: Seq<char>, needle: Seq<char>) -> bool {
    exists|i: int| #[trigger] occurs_at(hay, needle, i)
}

pub fn lower_char_exec(c: char) -> (r: char)
    ensures
        r == lower_char(c),
{
    if 'A' <= c && c <= 'Z' {
        ((c as u8) + 32) as char
    } else {
        c
    }
}

/// `to_ascii_lowercase` on a character sequence.
pub fn ascii_lower_chars(s: &[char]) -> (r: Vec<char>)
    ensures
        r@ == ascii_lower(s@),
{
    let mut r: Vec<char> = Vec::new();
    let mut i: usize = 0;
    while i < s.len()
        invariant
            i <= s.len(),
            r@ == ascii_lower(s@.take(i as int)),
        decreases s.len() - i,
    {
        r.push(lower_char_exec(s[i]));
        i += 1;
        assert(r@ =~= ascii_lower(s@.take(i as int)));
    }
    assert(s@.take(s.len() as int) == s@);
    r
}

/// Whether `needle` occurs at position `i` of `hay`.
pub fn occurs_at_exec(hay: &[char], needle: &[char], i: usize) -> (r: bool)
    ensures
        r == occurs_at(hay@, needle@, i as int),
{
    if i > hay.len() || needle.len() > hay.len() - i {
        return false;
    }
    let mut k: usize = 0;
    while k < needle.len()
        invariant
            i + needle.len() <= hay.len(),
            k <= needle.len(),
            forall|j: int| 0 <= j < k ==> hay@[i + j] == needle@[j],
        decreases needle.len() - k,
    {
        if hay[i + k] != needle[k] {
            assert(hay@.subrange(i as int, i + needle.len())[k as int] != needle@[k as int]);
            return false;
        }
        k += 1;
    }
    assert(hay@.subrange(i as int, i + needle.len()) =~= needle@);
    true
}

/// `str::contains` for a pattern of characters.
pub fn contains_chars(hay: &[char], needle: &[char]) -> (r: bool)
    ensures
        r == contains_seq(hay@, needle@),
{
    if needle.len() == 0 {
        assert(hay@.subrange(0, 0) =~= needle@);
        assert(occurs_at(hay@, needle@, 0));
        return true;
    }
    if needle.len() > hay.len() {
        assert forall|j: int| !occurs_at(hay@, needle@, j) by {}
        return false;
    }
    let last: usize = hay.len() - needle.len();
    let mut i: usize = 0;
    while i <= last
        invariant
            last == hay.len() - needle.len(),
            last < hay.len(),
            i <= last + 1,
            forall|j: int| 0 <= j < i ==> !occurs_at(hay@, needle@, j),
        decreases last + 1 - i,
    {
        if occurs_at_exec(hay, needle, i) {
            return true;
        }
        i += 1;
    }
    assert forall|j: int| !occurs_at(hay@, needle@, j) by {}
    false
}

/// Appends the characters of `s`.
pub fn push_str(out: &mut Vec<char>, s: &str)
    ensures
        final(out)@ == old(out)@ + s@,
{
    let v = chars_of(s);
    let mut i: usize = 0;
    let ghost start = out@;
    while i < v.len()
        invariant
            i <= v.len(),
            v@ == s@,
            out@ == start + v@.take(i as int),
        decreases v.len() - i,
    {
        out.push(v[i]);
        i += 1;
        assert(out@ =~= start + v@.take(i as int));
    }
    assert(v@.take(v.len() as int) == v@);
}

/// Appends a character sequence.
pub fn push_chars(out: &mut Vec<char>, s: &[char])
    ensures
        final(out)@ == old(out)@ + s@,
{
    let mut i: usize = 0;
    let ghost start = out@;
    while i < s.len()
        invariant
            i <= s.len(),
            out@ == start + s@.take(i as int),
        decreases s.len() - i,
    {
        out.push(s[i]);
        i += 1;
        assert(out@ =~= start + s@.take(i as int));
    }
    assert(s@.take(s.len() as int) == s@);
}

/// The concatenation of two strings.
pub fn concat2(a: &str, b: &str) -> (r: String)
    ensures
        r@ == a@ + b@,
{
    let mut v: Vec<char> = Vec::new();
    push_str(&mut v, a);
    push_str(&mut v, b);
    assert(v@ =~= a@ + b@);
    string_of(v.as_slice())
}

} // verus!

verus! {

/// The kinds of `std::num::ParseIntError`.
#[derive(Debug, Clone, Copy, PartialEq, Eq)]
pub enum IntErrorKind {
    Empty,
    InvalidDigit,
    PosOverflow,
    NegOverflow,
}

/// The index of the first character of `s` that is not an ASCII digit, or
/// `s.len()`.
pub open spec fn digit_run(s: Seq<char>) -> nat
    decreases s.len(),
{
    if s.len() == 0 || !is_digit(s[0]) {
        0
    } else {
        1 + digit_run(s.drop_first())
    }
}

/// What `str::parse::<i64>()` gives: digits are read from the left, and the
/// first problem met decides the error, so a number that already overflows
/// before the first bad character is reported as too large (or too small).
pub open spec fn i64_parse_outcome(s: Seq<char>) -> Result<int, IntErrorKind> {
    if s.len() == 0 {
        Err(IntErrorKind::Empty)
    } else if (s[0] == '+' || s[0] == '-') && s.len() == 1 {
        Err(IntErrorKind::InvalidDigit)
    } else {
        let neg = s[0] == '-';
        let b = if s[0] == '+' || s[0] == '-' { s.drop_first() } else { s };
        let k = digit_run(b);
        let v = digits_value(b.take(k as int));
        if !neg && v > 0x7fff_ffff_ffff_ffff {
            Err(IntErrorKind::PosOverflow)
        } else if neg && v > 0x8000_0000_0000_0000 {
            Err(IntErrorKind::NegOverflow)
        } else if k < b.len() {
            Err(IntErrorKind::InvalidDigit)
        } else if neg {
            Ok(-(v as int))
        } else {
            Ok(v as int)
        }
    }
}

/// The text of a `ParseIntError` of this kind, as its `Display` writes it.
pub open spec fn int_error_text(k: IntErrorKind) -> Seq<char> {
    match k {
        IntErrorKind::Empty => "cannot parse integer from empty string"@,
        IntErrorKind::InvalidDigit => "invalid digit found in string"@,
        IntErrorKind::PosOverflow => "number too large to fit in target type"@,
        IntErrorKind::NegOverflow => "number too small to fit in target type"@,
    }
}

impl IntErrorKind {
    /// The error's message.
    pub fn message(&self) -> (r: String)
        ensures
            r@ == int_error_text(*self),
    {
        match self {
            IntErrorKind::Empty => owned("cannot parse integer from empty string"),
            IntErrorKind::InvalidDigit => owned("invalid digit found in string"),
            IntErrorKind::PosOverflow => owned("number too large to fit in target type"),
            IntErrorKind::NegOverflow => owned("number too small to fit in target type"),
        }
    }
}

proof fn lemma_digit_run_prefix(b: Seq<char>, i: int)
    requires
        0 <= i <= b.len(),
        all_digits(b.take(i)),
    ensures
        digit_run(b) >= i,
        i < b.len() && !is_digit(b[i]) ==> digit_run(b) == i,
    decreases i,
{
    if i > 0 {
        assert(is_digit(b.take(i)[0]));
        assert(b.drop_first().take(i - 1) =~= b.take(i).drop_first());
        assert(all_digits(b.drop_first().take(i - 1)));
        lemma_digit_run_prefix(b.drop_first(), i - 1);
    }
}

proof fn lemma_digit_run_bound(b: Seq<char>)
    ensures
        digit_run(b) <= b.len(),
        all_digits(b.take(digit_run(b) as int)),
    decreases b.len(),
{
    if b.len() > 0 && is_digit(b[0]) {
        lemma_digit_run_bound(b.drop_first());
        let k: int = digit_run(b.drop_first()) as int;
        assert forall|j: int| 0 <= j < k + 1 implies is_digit(#[trigger] b.take(k + 1)[j]) by {
            if j > 0 {
                assert(b.take(k + 1)[j] == b.drop_first().take(k)[j - 1]);
            }
        }
    }
}

/// Parses a signed number as `str::parse::<i64>()` does, with its error kind.
pub fn parse_i64_detailed(s: &[char]) -> (r: Result<i64, IntErrorKind>)
    ensures
        match i64_parse_outcome(s@) {
            Ok(v) => r == Ok::<i64, IntErrorKind>(v as i64) && v == v as i64,
            Err(e) => r == Err::<i64, IntErrorKind>(e),
        },
{
    if s.len() == 0 {
        return Err(IntErrorKind::Empty);
    }
    if (s[0] == '+' || s[0] == '-') && s.len() == 1 {
        return Err(IntErrorKind::InvalidDigit);
    }
    let neg = s[0] == '-';
    let start: usize = if s[0] == '+' || s[0] == '-' { 1 } else { 0 };
    let ghost b = if s@[0] == '+' || s@[0] == '-' { s@.drop_first() } else { s@ };
    assert(b == s@.subrange(start as int, s.len() as int));
    let limit: u64 = if neg { 0x8000_0000_0000_0000 } else { 0x7fff_ffff_ffff_ffff };
    let mut acc: u64 = 0;
    let mut i: usize = start;
    assert(b.take(0) =~= Seq::<char>::empty());
    while i < s.len()
        invariant
            start <= i <= s.len(),
            s.len() > 0,
            !((s@[0] == '+' || s@[0] == '-') && s.len() == 1),
            neg == (s@[0] == '-'),
            b == (if s@[0] == '+' || s@[0] == '-' { s@.drop_first() } else { s@ }),
            limit == (if neg { 0x8000_0000_0000_0000u64 } else { 0x7fff_ffff_ffff_ffffu64 }),
            b == s@.subrange(start as int, s.len() as int),
            all_digits(b.take(i - start)),
            acc as nat == digits_value(b.take(i - start)),
            acc <= limit,
        decreases s.len() - i,
    {
        let c = s[i];
        proof {
            assert(b.take(i + 1 - start).drop_last() == b.take(i - start));
            assert(b.take(i + 1 - start).last() == c);
        }
        if !is_digit_char(c) {
            proof {
                lemma_digit_run_prefix(b, i - start);
            }
            return Err(IntErrorKind::InvalidDigit);
        }
        let d: u64 = (c as u32 - '0' as u32) as u64;
        let next: u128 = acc as u128 * 10 + d as u128;
        assert(all_digits(b.take(i + 1 - start)));
        if next > limit as u128 {
            proof {
                assert(digits_value(b.take(i + 1 - start)) == next);
                lemma_digit_run_bound(b);
                let k = digit_run(b);
                lemma_digit_run_prefix(b, i + 1 - start);
                assert(b.take(k as int).take(i + 1 - start) == b.take(i + 1 - start));
                lemma_digits_value_prefix(b.take(k as int), i + 1 - start);
            }
            if neg {
                return Err(IntErrorKind::NegOverflow);
            } else {
                return Err(IntErrorKind::PosOverflow);
            }
        }
        acc = next as u64;
        i += 1;
    }
    proof {
        assert(b.take(i - start) == b);
        lemma_digit_run_prefix(b, b.len() as int);
        lemma_digit_run_bound(b);
        assert(b.take(b.len() as int) == b);
    }
    if neg {
        if acc == 0x8000_0000_0000_0000 {
            Ok(i64::MIN)
        } else {
            Ok(-(acc as i64))
        }
    } else {
        Ok(acc as i64)
    }
}

} // verus!

verus! {

/// `str::starts_with`.
pub open spec fn starts_with(s: Seq<char>, p: Seq<char>) -> bool {
    p.len() <= s.len() && s.take(p.len() as int) == p
}

/// `str::ends_with`.
pub open spec fn ends_with(s: Seq<char>, x: Seq<char>) -> bool {
    x.len() <= s.len() && s.skip(s.len() - x.len()) == x
}

/// The position of the last `c` in `s`.
pub open spec fn last_index_of(s: Seq<char>, c: char) -> Option<int>
    decreases s.len(),
{
    if s.len() == 0 {
        None
    } else if s.last() == c {
        Some(s.len() - 1)
    } else {
        last_index_of(s.drop_last(), c)
    }
}

pub proof fn lemma_last_index_of(s: Seq<char>, c: char)
    ensures
        last_index_of(s, c) matches Some(d) ==> 0 <= d < s.len() && s[d] == c && forall|j: int| d < j < s.len() ==> s[j] != c,
        last_index_of(s, c) is None ==> forall|j: int| 0 <= j < s.len() ==> s[j] != c,
    decreases s.len(),
{
    if s.len() > 0 {
        if s.last() != c {
            let t = s.drop_last();
            lemma_last_index_of(t, c);
            assert forall|j: int| 0 <= j < t.len() implies t[j] == s[j] by {}
            assert(s[s.len() - 1] != c);
        } else {
            assert(s[s.len() - 1] == c);
        }
    }
}

pub fn starts_with_chars(s: &[char], p: &[char]) -> (r: bool)
    ensures
        r == starts_with(s@, p@),
{
    let r = occurs_at_exec(s, p, 0);
    assert(s@.subrange(0, p@.len() as int) =~= s@.take(p@.len() as int));
    r
}

pub fn ends_with_chars(s: &[char], x: &[char]) -> (r: bool)
    ensures
        r == ends_with(s@, x@),
{
    if x.len() > s.len() {
        return false;
    }
    let r = occurs_at_exec(s, x, s.len() - x.len());
    assert(s@.subrange((s.len() - x.len()) as int, s.len() as int) =~= s@.skip(s.len() - x.len()));
    r
}

pub fn last_index_of_chars(s: &[char], c: char) -> (r: Option<usize>)
    ensures
        match last_index_of(s@, c) {
            Some(d) => r == Some(d as usize),
            None => r is None,
        },
{
    let mut n: usize = s.len();
    assert(s@.take(n as int) == s@);
    while n > 0
        invariant
            n <= s.len(),
            last_index_of(s@, c) == last_index_of(s@.take(n as int), c),
        decreases n,
    {
        assert(s@.take(n as int).last() == s@[n - 1]);
        assert(s@.take(n as int).drop_last() == s@.take(n - 1));
        if s[n - 1] == c {
            return Some(n - 1);
        }
        n -= 1;
    }
    None
}

/// The characters of `s` from `from` up to `to`.
pub fn sub_chars(s: &[char], from: usize, to: usize) -> (r: Vec<char>)
    requires
        from <= to <= s.len(),
    ensures
        r@ == s@.subrange(from as int, to as int),
{
    let mut r: Vec<char> = Vec::new();
    let mut i: usize = from;
    while i < to
        invariant
            from <= i <= to <= s.len(),
            r@ == s@.subrange(from as int, i as int),
        decreases to - i,
    {
        r.push(s[i]);
        i += 1;
        assert(r@ =~= s@.subrange(from as int, i as int));
    }
    r
}

} // verus!

verus! {

/// Reading back a number written in decimal gives the number.
pub proof fn lemma_decimal_roundtrip(n: nat)
    ensures
        decimal(n).len() >= 1,
        all_digits(decimal(n)),
        digits_value(decimal(n)) == n,
        decimal(n)[0] != '+',
    decreases n,
{
    let d = (n % 10) as nat;
    assert(digit_value(digit_char(d)) == d);
    if n >= 10 {
        lemma_decimal_roundtrip(n / 10);
        let s = decimal(n);
        assert(s.drop_last() == decimal(n / 10));
        assert(s.last() == digit_char(d));
        assert(all_digits(s)) by {
            assert forall|i: int| 0 <= i < s.len() implies is_digit(#[trigger] s[i]) by {
                if i < s.len() - 1 {
                    assert(s[i] == decimal(n / 10)[i]);
                }
            }
        }
        assert(s[0] == decimal(n / 10)[0]);
        assert(digits_value(s) == digits_value(s.drop_last()) * 10 + digit_value(s.last()));
        assert(n == (n / 10) * 10 + n % 10);
    } else {
        let s = decimal(n);
        assert(s.drop_last() =~= Seq::<char>::empty());
        assert(digits_value(s) == digits_value(s.drop_last()) * 10 + digit_value(s.last()));
    }
}

/// A number written in decimal is read back by `str::parse` for any type it
/// fits in.
pub proof fn lemma_parse_decimal(n: nat, bound: nat)
    ensures
        parse_unsigned(decimal(n), bound) == if n < bound { Some(n) } else { None::<nat> },
{
    lemma_decimal_roundtrip(n);
    assert(unsigned_body(decimal(n)) == decimal(n));
}

} // verus!
