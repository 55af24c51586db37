//! Decimal rendering and parsing, and form-urlencoding of query values.
use vstd::prelude::*;
use vstd::utf8::{
    decode_utf8, encode_utf8, encode_utf8_decode_utf8, encode_utf8_valid_utf8, is_ascii_chars,
    is_ascii_chars_encode_utf8, valid_utf8,
};

verus! {

/// The character of a decimal digit.
pub open spec fn digit_char(d: nat) -> char {
    if d == 0 { '0' }
    else if d == 1 { '1' }
    else if d == 2 { '2' }
    else if d == 3 { '3' }
    else if d == 4 { '4' }
    else if d == 5 { '5' }
    else if d == 6 { '6' }
    else if d == 7 { '7' }
    else if d == 8 { '8' }
    else { '9' }
}

/// The decimal rendering of a natural number, without leading zeros.
pub open spec fn decimal_of(n: nat) -> Seq<char>
    decreases n,
{
    if n < 10 {
        seq![digit_char(n)]
    } else {
        decimal_of(n / 10) + seq![digit_char(n % 10)]
    }
}

fn digit_str(d: u64) -> (r: &'static str)
    requires
        d < 10,
    ensures
        r@ == seq![digit_char(d as nat)],
{
    proof {
        reveal_strlit("0");
        reveal_strlit("1");
        reveal_strlit("2");
        reveal_strlit("3");
        reveal_strlit("4");
        reveal_strlit("5");
        reveal_strlit("6");
        reveal_strlit("7");
        reveal_strlit("8");
        reveal_strlit("9");
    }
    if d == 0 { "0" }
    else if d == 1 { "1" }
    else if d == 2 { "2" }
    else if d == 3 { "3" }
    else if d == 4 { "4" }
    else if d == 5 { "5" }
    else if d == 6 { "6" }
    else if d == 7 { "7" }
    else if d == 8 { "8" }
    else { "9" }
}

/// Renders `n` in decimal.
pub fn decimal(n: u64) -> (r: String)
    ensures
        r@ == decimal_of(n as nat),
    decreases n,
{
    if n < 10 {
        String::from_str(digit_str(n))
    } else {
        let mut s = decimal(n / 10);
        s.append(digit_str(n % 10));
        s
    }
}

/// Whether `c` is a decimal digit.
pub open spec fn is_digit(c: char) -> bool {
    '0' <= c && c <= '9'
}

/// The value of a decimal digit character.
pub open spec fn digit_value(c: char) -> int {
    c as int - '0' as int
}

/// The value of a string of decimal digits, most significant first.
pub open spec fn value_of(s: Seq<char>) -> int
    decreases s.len(),
{
    if s.len() == 0 {
        0
    } else {
        value_of(s.drop_last()) * 10 + digit_value(s.last())
    }
}

/// The number that `s` spells in decimal, if it is a non-empty run of digits.
pub open spec fn decimal_value(s: Seq<char>) -> Option<int> {
    if s.len() > 0 && (forall|i: int| 0 <= i < s.len() ==> is_digit(#[trigger] s[i])) {
        Some(value_of(s))
    } else {
        None
    }
}

proof fn lemma_value_of_nonneg(s: Seq<char>)
    requires
        forall|i: int| 0 <= i < s.len() ==> is_digit(#[trigger] s[i]),
    ensures
        value_of(s) >= 0,
    decreases s.len(),
{
    if s.len() > 0 {
        assert(is_digit(s[s.len() - 1]));
        lemma_value_of_nonneg(s.drop_last());
    }
}

proof fn lemma_digit_char(d: nat)
    requires
        d < 10,
    ensures
        is_digit(digit_char(d)),
        digit_value(digit_char(d)) == d,
{
}

/// Reading back the decimal rendering of `n` gives `n`.
pub proof fn lemma_decimal_round_trip(n: nat)
    ensures
        decimal_value(decimal_of(n)) == Some(n as int),
    decreases n,
{
    lemma_digit_char(n % 10);
    if n < 10 {
        assert(decimal_of(n).drop_last() =~= Seq::<char>::empty());
    } else {
        lemma_decimal_round_trip(n / 10);
        assert(decimal_of(n).drop_last() =~= decimal_of(n / 10));
        assert(decimal_of(n).last() == digit_char(n % 10));
        assert(value_of(decimal_of(n / 10)) == n / 10);
        assert(value_of(decimal_of(n)) == (n / 10) * 10 + n % 10);
    }
    let s = decimal_of(n);
    assert forall|i: int| 0 <= i < s.len() implies is_digit(#[trigger] s[i]) by {
        if n >= 10 && i < s.len() - 1 {
            assert(s[i] == decimal_of(n / 10)[i]);
        } else if n < 10 {
            lemma_digit_char(n);
        }
    }
    if n < 10 {
        assert(value_of(s) == value_of(s.drop_last()) * 10 + digit_value(s.last()));
    }
}

/// Parses a non-empty run of decimal digits that fits in an `i64`.
pub fn parse_decimal(s: &str) -> (r: Option<i64>)
    ensures
        r.is_some() <==> (decimal_value(s@).is_some() && decimal_value(s@).unwrap() <= i64::MAX),
        r.is_some() ==> r.unwrap() as int == decimal_value(s@).unwrap(),
        r.is_some() ==> r.unwrap() >= 0,
{
    let n = s.unicode_len();
    if n == 0 {
        return None;
    }
    let mut acc: i64 = 0;
    let mut overflow = false;
    let mut i: usize = 0;
    while i < n
        invariant
            n == s@.len(),
            0 <= i <= n,
            forall|j: int| 0 <= j < i ==> is_digit(#[trigger] s@[j]),
            !overflow ==> acc as int == value_of(s@.take(i as int)),
            acc >= 0,
            overflow ==> value_of(s@.take(i as int)) > i64::MAX,
        decreases n - i,
    {
        let c = s.get_char(i);
        if !('0' <= c && c <= '9') {
            return None;
        }
        let d: i64 = (c as u32 - '0' as u32) as i64;
        assert(s@.take(i + 1).drop_last() =~= s@.take(i as int));
        proof {
            lemma_value_of_nonneg(s@.take(i as int));
        }
        if !overflow {
            if acc > (i64::MAX - d) / 10 {
                overflow = true;
            } else {
                acc = acc * 10 + d;
            }
        }
        i = i + 1;
    }
    assert(s@.take(n as int) =~= s@);
    if overflow {
        None
    } else {
        Some(acc)
    }
}

/// Bytes that the form serializer leaves as they are.
pub open spec fn form_unchanged(b: u8) -> bool {
    b == 42 || b == 45 || b == 46 || (48 <= b && b <= 57) || (65 <= b && b <= 90) || b == 95
        || (97 <= b && b <= 122)
}

/// An upper-case hexadecimal digit.
pub open spec fn hex_upper(d: nat) -> char {
    if d < 10 {
        digit_char(d)
    } else if d == 10 {
        'A'
    } else if d == 11 {
        'B'
    } else if d == 12 {
        'C'
    } else if d == 13 {
        'D'
    } else if d == 14 {
        'E'
    } else {
        'F'
    }
}

/// `%` followed by the two upper-case hex digits of `b`.
pub open spec fn percent_byte(b: u8) -> Seq<char> {
    seq!['%', hex_upper((b / 16) as nat), hex_upper((b % 16) as nat)]
}

/// The form serialization of one byte.
pub open spec fn form_byte(b: u8) -> Seq<char> {
    if form_unchanged(b) {
        seq![b as char]
    } else if b == 32 {
        seq!['+']
    } else {
        percent_byte(b)
    }
}

/// The form serialization of a byte string.
pub open spec fn form_encode_bytes(bs: Seq<u8>) -> Seq<char>
    decreases bs.len(),
{
    if bs.len() == 0 {
        Seq::empty()
    } else {
        form_byte(bs[0]) + form_encode_bytes(bs.drop_first())
    }
}

/// The form serialization of the UTF-8 encoding of `s`.
pub open spec fn form_encoded(s: Seq<char>) -> Seq<char> {
    form_encode_bytes(encode_utf8(s))
}

/// Relies on `form_urlencoded::byte_serialize` (re-exported by `url`), the
/// `application/x-www-form-urlencoded` byte serializer: bytes in
/// `*-._0-9A-Za-z` pass unchanged, a space becomes `+`, every other byte
/// becomes `%XX` in upper-case hex.
#[verifier::external_body]
pub(crate) fn form_encode(s: &str) -> (r: String)
    ensures
        r@ == form_encoded(s@),
{
    url::form_urlencoded::byte_serialize(s.as_bytes()).collect()
}

/// Relies on `percent_encoding::percent_encode_byte`: `%` and the two
/// upper-case hex digits of the byte.
#[verifier::external_body]
pub(crate) fn percent_encode_one(b: u8) -> (r: &'static str)
    ensures
        r@ == percent_byte(b),
{
    percent_encoding::percent_encode_byte(b)
}

/// Whether `b` is a hexadecimal digit, in either case.
pub open spec fn is_hex_byte(b: u8) -> bool {
    (48 <= b && b <= 57) || (65 <= b && b <= 70) || (97 <= b && b <= 102)
}

/// The value of a hexadecimal digit.
pub open spec fn hex_byte_value(b: u8) -> int {
    if b <= 57 {
        b - 48
    } else if b <= 70 {
        b - 55
    } else {
        b - 87
    }
}

/// Percent-decoding: `%` and two hex digits stand for one byte; any other
/// byte, a stray `%` included, stands for itself.
pub open spec fn percent_decode_bytes(bs: Seq<u8>) -> Seq<u8>
    decreases bs.len(),
{
    if bs.len() == 0 {
        Seq::empty()
    } else if bs[0] == 37 && bs.len() >= 3 && is_hex_byte(bs[1]) && is_hex_byte(bs[2]) {
        seq![(hex_byte_value(bs[1]) * 16 + hex_byte_value(bs[2])) as u8] + percent_decode_bytes(
            bs.skip(3),
        )
    } else {
        seq![bs[0]] + percent_decode_bytes(bs.drop_first())
    }
}

/// Each `+` read as a space.
pub open spec fn plus_to_space(bs: Seq<u8>) -> Seq<u8> {
    bs.map_values(|b: u8| if b == 43 { 32u8 } else { b })
}

/// What `String::from_utf8_lossy` makes of bytes that are not valid UTF-8.
pub uninterp spec fn utf8_lossy(bs: Seq<u8>) -> Seq<char>;

/// Bytes read as text, invalid sequences replaced.
pub open spec fn text_of(bs: Seq<u8>) -> Seq<char> {
    if valid_utf8(bs) {
        decode_utf8(bs)
    } else {
        utf8_lossy(bs)
    }
}

/// The form decoding of a name or a value.
pub open spec fn form_decoded(cs: Seq<char>) -> Seq<char> {
    text_of(percent_decode_bytes(plus_to_space(encode_utf8(cs))))
}

/// `cs` split at every `sep`; always at least one (possibly empty) part.
pub open spec fn split_on(cs: Seq<char>, sep: char) -> Seq<Seq<char>>
    decreases cs.len(),
{
    if cs.len() == 0 {
        seq![Seq::empty()]
    } else {
        let r = split_on(cs.drop_last(), sep);
        if cs.last() == sep {
            r.push(Seq::empty())
        } else {
            r.update(r.len() - 1, r.last().push(cs.last()))
        }
    }
}

/// The parts that are not empty.
pub open spec fn non_empty(parts: Seq<Seq<char>>) -> Seq<Seq<char>>
    decreases parts.len(),
{
    if parts.len() == 0 {
        Seq::empty()
    } else if parts.last().len() > 0 {
        non_empty(parts.drop_last()).push(parts.last())
    } else {
        non_empty(parts.drop_last())
    }
}

/// The characters before the first `sep` (all of them where there is none).
pub open spec fn before_sep(cs: Seq<char>, sep: char) -> Seq<char>
    decreases cs.len(),
{
    if cs.len() == 0 {
        Seq::empty()
    } else if cs[0] == sep {
        Seq::empty()
    } else {
        seq![cs[0]] + before_sep(cs.drop_first(), sep)
    }
}

/// The characters after the first `sep` (none where there is none).
pub open spec fn after_sep(cs: Seq<char>, sep: char) -> Seq<char>
    decreases cs.len(),
{
    if cs.len() == 0 {
        Seq::empty()
    } else if cs[0] == sep {
        cs.drop_first()
    } else {
        after_sep(cs.drop_first(), sep)
    }
}

/// One `name=value` sequence, decoded.
pub open spec fn form_pair(seg: Seq<char>) -> (Seq<char>, Seq<char>) {
    (form_decoded(before_sep(seg, '=')), form_decoded(after_sep(seg, '=')))
}

/// The decoded `(name, value)` pairs of a form-urlencoded string:
/// sequences split at `&`, empty ones skipped, each split at its first `=`.
pub open spec fn form_pairs(q: Seq<char>) -> Seq<(Seq<char>, Seq<char>)> {
    non_empty(split_on(q, '&')).map_values(|seg: Seq<char>| form_pair(seg))
}

/// The views of decoded query pairs.
pub open spec fn pairs_view(v: Seq<(String, String)>) -> Seq<(Seq<char>, Seq<char>)> {
    v.map_values(|p: (String, String)| (p.0@, p.1@))
}

/// Relies on `form_urlencoded::parse` (re-exported by `url`) with
/// `into_owned`: the input is split at `&`, empty sequences are skipped,
/// each is split at its first `=` (a missing `=` gives an empty value),
/// and name and value are decoded: `+` to a space, `%XX` to its byte,
/// then the bytes read as UTF-8 with invalid sequences replaced.
#[verifier::external_body]
pub(crate) fn parse_form_pairs(q: &str) -> (r: Vec<(String, String)>)
    ensures
        pairs_view(r@) == form_pairs(q@),
        forall|i: int|
            #![trigger r@[i]]
            0 <= i < r@.len() ==> {
                let raw = percent_decode_bytes(
                    plus_to_space(encode_utf8(after_sep(non_empty(split_on(q@, '&'))[i], '='))),
                );
                r@[i].1@ == if valid_utf8(raw) {
                    decode_utf8(raw)
                } else {
                    utf8_lossy(raw)
                }
            },
{
    url::form_urlencoded::parse(q.as_bytes()).into_owned().collect()
}

/// The bytes of an ASCII character sequence.
pub open spec fn ascii_bytes(cs: Seq<char>) -> Seq<u8> {
    cs.map_values(|c: char| c as u8)
}

proof fn lemma_ascii_encode(cs: Seq<char>)
    requires
        is_ascii_chars(cs),
    ensures
        encode_utf8(cs) == ascii_bytes(cs),
{
    is_ascii_chars_encode_utf8(cs);
    assert(encode_utf8(cs) =~= ascii_bytes(cs));
}

proof fn lemma_hex_upper(d: nat)
    requires
        d < 16,
    ensures
        is_hex_byte(hex_upper(d) as u8),
        hex_byte_value(hex_upper(d) as u8) == d,
        (hex_upper(d) as u32) < 128,
{
}

proof fn lemma_form_encode_ascii(bs: Seq<u8>)
    ensures
        is_ascii_chars(form_encode_bytes(bs)),
        forall|i: int|
            0 <= i < form_encode_bytes(bs).len() ==> #[trigger] form_encode_bytes(bs)[i] != '&'
                && form_encode_bytes(bs)[i] != '=',
    decreases bs.len(),
{
    if bs.len() > 0 {
        let b = bs[0];
        lemma_form_encode_ascii(bs.drop_first());
        lemma_hex_upper((b / 16) as nat);
        lemma_hex_upper((b % 16) as nat);
        let head = form_byte(b);
        let tail = form_encode_bytes(bs.drop_first());
        assert(form_encode_bytes(bs) == head + tail);
        assert forall|i: int| 0 <= i < head.len() implies '\0' <= #[trigger] head[i] <= '\u{7f}'
            && head[i] != '&' && head[i] != '=' by {}
        assert forall|i: int|
            0 <= i < (head + tail).len() implies '\0' <= #[trigger] (head + tail)[i] <= '\u{7f}' by {
            if i >= head.len() {
                assert((head + tail)[i] == tail[i - head.len()]);
            }
        }
        assert forall|i: int| 0 <= i < (head + tail).len() implies #[trigger] (head + tail)[i]
            != '&' && (head + tail)[i] != '=' by {
            if i >= head.len() {
                assert((head + tail)[i] == tail[i - head.len()]);
            }
        }
    }
}

proof fn lemma_form_encode_decodes(bs: Seq<u8>)
    ensures
        percent_decode_bytes(plus_to_space(ascii_bytes(form_encode_bytes(bs)))) == bs,
    decreases bs.len(),
{
    if bs.len() == 0 {
        assert(plus_to_space(ascii_bytes(form_encode_bytes(bs))) =~= Seq::<u8>::empty());
        assert(bs =~= Seq::<u8>::empty());
    } else {
        let b = bs[0];
        let rest = bs.drop_first();
        lemma_form_encode_decodes(rest);
        lemma_hex_upper((b / 16) as nat);
        lemma_hex_upper((b % 16) as nat);
        let head = form_byte(b);
        let tail = form_encode_bytes(rest);
        let hb = plus_to_space(ascii_bytes(head));
        let tb = plus_to_space(ascii_bytes(tail));
        assert(plus_to_space(ascii_bytes(head + tail)) =~= hb + tb);
        let all = hb + tb;
        if form_unchanged(b) {
            assert(hb =~= seq![b]);
            assert(all.drop_first() =~= tb);
        } else if b == 32 {
            assert(hb =~= seq![32u8]);
            assert(all.drop_first() =~= tb);
        } else {
            assert(hb.len() == 3);
            assert(all.skip(3) =~= tb);
            assert(hb[0] == 37);
            assert((b / 16) * 16 + b % 16 == b);
        }
        assert(seq![b] + rest =~= bs);
    }
}

/// Decoding the form encoding of `s` gives `s` back; the encoding is ASCII
/// and holds neither `&` nor `=`.
pub proof fn lemma_form_round_trip(s: Seq<char>)
    ensures
        form_decoded(form_encoded(s)) == s,
        is_ascii_chars(form_encoded(s)),
        forall|i: int|
            0 <= i < form_encoded(s).len() ==> #[trigger] form_encoded(s)[i] != '&'
                && form_encoded(s)[i] != '=',
{
    let bs = encode_utf8(s);
    lemma_form_encode_ascii(bs);
    lemma_ascii_encode(form_encode_bytes(bs));
    lemma_form_encode_decodes(bs);
    encode_utf8_valid_utf8(s);
    encode_utf8_decode_utf8(s);
}

/// Text of ASCII characters other than `%` and `+` decodes to itself.
pub proof fn lemma_plain_decodes(cs: Seq<char>)
    requires
        is_ascii_chars(cs),
        forall|i: int| 0 <= i < cs.len() ==> #[trigger] cs[i] != '%' && cs[i] != '+',
    ensures
        form_decoded(cs) == cs,
    decreases cs.len(),
{
    lemma_ascii_encode(cs);
    lemma_plain_bytes(ascii_bytes(cs));
    encode_utf8_valid_utf8(cs);
    encode_utf8_decode_utf8(cs);
}

proof fn lemma_plain_bytes(bs: Seq<u8>)
    requires
        forall|i: int| 0 <= i < bs.len() ==> #[trigger] bs[i] != 37 && bs[i] != 43,
    ensures
        percent_decode_bytes(plus_to_space(bs)) == bs,
    decreases bs.len(),
{
    let p = plus_to_space(bs);
    assert(p =~= bs);
    if bs.len() > 0 {
        lemma_plain_bytes(bs.drop_first());
        assert(plus_to_space(bs.drop_first()) =~= bs.drop_first());
        assert(seq![bs[0]] + bs.drop_first() =~= bs);
    } else {
    }
}

/// Whether `sep` does not occur in `cs`.
pub open spec fn lacks(cs: Seq<char>, sep: char) -> bool {
    forall|i: int| 0 <= i < cs.len() ==> #[trigger] cs[i] != sep
}

pub proof fn lemma_split_len(cs: Seq<char>, sep: char)
    ensures
        split_on(cs, sep).len() >= 1,
    decreases cs.len(),
{
    if cs.len() > 0 {
        lemma_split_len(cs.drop_last(), sep);
    }
}

pub proof fn lemma_split_without_sep(a: Seq<char>, sep: char)
    requires
        lacks(a, sep),
    ensures
        split_on(a, sep) == seq![a],
    decreases a.len(),
{
    if a.len() > 0 {
        lemma_split_without_sep(a.drop_last(), sep);
        assert(a.drop_last().push(a.last()) =~= a);
        assert(split_on(a, sep) =~= seq![a]);
    } else {
        assert(a =~= Seq::<char>::empty());
    }
}

pub proof fn lemma_split_suffix(x: Seq<char>, t: Seq<char>, sep: char)
    requires
        lacks(t, sep),
    ensures
        split_on(x + seq![sep] + t, sep) == split_on(x, sep).push(t),
    decreases t.len(),
{
    let whole = x + seq![sep] + t;
    if t.len() == 0 {
        assert(whole.drop_last() =~= x);
        assert(t =~= Seq::<char>::empty());
    } else {
        let t0 = t.drop_last();
        lemma_split_suffix(x, t0, sep);
        assert(whole.drop_last() =~= x + seq![sep] + t0);
        assert(t0.push(t.last()) =~= t);
        assert(split_on(whole, sep) =~= split_on(x, sep).push(t));
    }
}

pub proof fn lemma_non_empty_keeps(parts: Seq<Seq<char>>)
    requires
        forall|i: int| 0 <= i < parts.len() ==> (#[trigger] parts[i]).len() > 0,
    ensures
        non_empty(parts) == parts,
    decreases parts.len(),
{
    if parts.len() > 0 {
        lemma_non_empty_keeps(parts.drop_last());
        assert(parts.drop_last().push(parts.last()) =~= parts);
    } else {
        assert(parts =~= Seq::<Seq<char>>::empty());
    }
}

pub proof fn lemma_before_after(key: Seq<char>, val: Seq<char>, sep: char)
    requires
        lacks(key, sep),
    ensures
        before_sep(key + seq![sep] + val, sep) == key,
        after_sep(key + seq![sep] + val, sep) == val,
    decreases key.len(),
{
    let whole = key + seq![sep] + val;
    if key.len() == 0 {
        assert(whole.drop_first() =~= val);
        assert(key =~= Seq::<char>::empty());
    } else {
        lemma_before_after(key.drop_first(), val, sep);
        assert(whole.drop_first() =~= key.drop_first() + seq![sep] + val);
        assert(seq![key[0]] + key.drop_first() =~= key);
    }
}

/// Splitting tokens joined with `,` at `,` gives the tokens back, where
/// none of them holds a `,`.
pub proof fn lemma_split_joined(ts: Seq<Seq<char>>)
    requires
        ts.len() >= 1,
        forall|i: int| 0 <= i < ts.len() ==> lacks(#[trigger] ts[i], ','),
    ensures
        split_on(crate::links::join_commas(ts), ',') == ts,
    decreases ts.len(),
{
    reveal_strlit(",");
    if ts.len() == 1 {
        lemma_split_without_sep(ts[0], ',');
        assert(seq![ts[0]] =~= ts);
    } else {
        let init = ts.drop_last();
        assert(forall|i: int| 0 <= i < init.len() ==> #[trigger] init[i] == ts[i]);
        lemma_split_joined(init);
        assert(lacks(ts[ts.len() - 1], ','));
        lemma_split_suffix(crate::links::join_commas(init), ts.last(), ',');
        assert(crate::links::join_commas(ts) =~= crate::links::join_commas(init) + seq![','] + ts.last());
        assert(init.push(ts.last()) =~= ts);
    }
}

} // verus!
