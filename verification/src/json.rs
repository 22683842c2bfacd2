//! The persisted benchmark format: a JSON array with one flat object per
//! record, every field named, the two unset placeholders written as `null`.
//! The serializer and the parser are both verified against the same
//! character-level description of the format, and parsing a serialized
//! sequence is proved to give the records back unchanged.
use vstd::prelude::*;
use crate::benchmark::BenchmarkResultView;

verus! {

// ---------------------------------------------------------------------------
// The format, as functions from values to character sequences.
// ---------------------------------------------------------------------------

/// The decimal digit character of `d` (meaningful for 0 through 9).
pub open spec fn digit_char(d: int) -> char {
    if d == 0 {
        '0'
    } else if d == 1 {
        '1'
    } else if d == 2 {
        '2'
    } else if d == 3 {
        '3'
    } else if d == 4 {
        '4'
    } else if d == 5 {
        '5'
    } else if d == 6 {
        '6'
    } else if d == 7 {
        '7'
    } else if d == 8 {
        '8'
    } else {
        '9'
    }
}

/// The decimal digits of a non-negative number, most significant first,
/// without a leading zero (except for the number 0 itself).
pub open spec fn dec_digits(n: int) -> Seq<char>
    decreases n,
{
    if n < 10 {
        seq![digit_char(n)]
    } else {
        dec_digits(n / 10).push(digit_char(n % 10))
    }
}

/// How a character appears inside a JSON string: a quote or a backslash is
/// preceded by a backslash, everything else stands as itself.
pub open spec fn esc_char(c: char) -> Seq<char> {
    if c == '"' || c == '\\' {
        seq!['\\', c]
    } else {
        seq![c]
    }
}

/// The escaped body of a JSON string.
pub open spec fn escaped(s: Seq<char>) -> Seq<char>
    decreases s.len(),
{
    if s.len() == 0 {
        Seq::empty()
    } else {
        esc_char(s[0]) + escaped(s.drop_first())
    }
}

/// A JSON string: the escaped body between double quotes.
pub open spec fn quoted(s: Seq<char>) -> Seq<char> {
    seq!['"'] + escaped(s) + seq!['"']
}

/// An optional number: its digits when set, `null` when unset.
pub open spec fn opt_u64_text(o: Option<u64>) -> Seq<char> {
    match o {
        Option::Some(n) => dec_digits(n as int),
        Option::None => "null"@,
    }
}

/// One record as a flat JSON object, fields in a fixed order.
pub open spec fn record_text(r: BenchmarkResultView) -> Seq<char> {
    "{\"model_size\":"@ + quoted(r.model_size) + ",\"device\":"@ + quoted(r.device)
        + ",\"compute_type\":"@ + quoted(r.compute_type) + ",\"audio_duration_ms\":"@
        + dec_digits(r.audio_duration_ms as int) + ",\"transcription_time_ms\":"@ + dec_digits(
        r.transcription_time_ms as int,
    ) + ",\"real_time_factor_milli\":"@ + dec_digits(r.real_time_factor_milli as int)
        + ",\"memory_usage_mb\":"@ + opt_u64_text(r.memory_usage_mb)
        + ",\"accuracy_score_milli\":"@ + opt_u64_text(r.accuracy_score_milli)
        + ",\"segments_count\":"@ + dec_digits(r.segments_count as int) + "}"@
}

/// The records after the first, each preceded by a comma.
pub open spec fn records_text_rest(rs: Seq<BenchmarkResultView>, i: int) -> Seq<char>
    decreases rs.len() - i,
{
    if i < 0 || i >= rs.len() {
        Seq::empty()
    } else {
        ","@ + record_text(rs[i]) + records_text_rest(rs, i + 1)
    }
}

/// The body of the array: the records in order, comma-separated.
pub open spec fn records_body(rs: Seq<BenchmarkResultView>) -> Seq<char> {
    if rs.len() == 0 {
        Seq::empty()
    } else {
        record_text(rs[0]) + records_text_rest(rs, 1)
    }
}

/// A record sequence as a JSON array.
pub open spec fn records_text(rs: Seq<BenchmarkResultView>) -> Seq<char> {
    "["@ + records_body(rs) + "]"@
}

// ---------------------------------------------------------------------------
// The parser, as functions from a character sequence and a position to the
// parsed value and the position after it. The parser is strict: it accepts
// exactly the serializer's output.
// ---------------------------------------------------------------------------

/// Whether a character is a decimal digit.
pub open spec fn is_digit(c: char) -> bool {
    ||| c == '0'
    ||| c == '1'
    ||| c == '2'
    ||| c == '3'
    ||| c == '4'
    ||| c == '5'
    ||| c == '6'
    ||| c == '7'
    ||| c == '8'
    ||| c == '9'
}

/// The value of a digit character (9 for anything else).
pub open spec fn digit_val(c: char) -> int {
    if c == '0' {
        0
    } else if c == '1' {
        1
    } else if c == '2' {
        2
    } else if c == '3' {
        3
    } else if c == '4' {
        4
    } else if c == '5' {
        5
    } else if c == '6' {
        6
    } else if c == '7' {
        7
    } else if c == '8' {
        8
    } else {
        9
    }
}

/// The position right after the run of digits starting at `i`.
pub open spec fn digit_run_end(t: Seq<char>, i: int) -> int
    decreases t.len() - i,
{
    if 0 <= i < t.len() && is_digit(t[i]) {
        digit_run_end(t, i + 1)
    } else {
        i
    }
}

/// The value of the digits in positions `i` (inclusive) to `j` (exclusive).
pub open spec fn digits_val(t: Seq<char>, i: int, j: int) -> int
    decreases j - i,
{
    if j <= i {
        0
    } else {
        digits_val(t, i, j - 1) * 10 + digit_val(t[j - 1])
    }
}

/// Parses a number: the maximal digit run at `i`; fails when there is no
/// digit or the value exceeds `u64::MAX`.
pub open spec fn parse_u64(t: Seq<char>, i: int) -> Option<(u64, int)> {
    let j = digit_run_end(t, i);
    if j == i {
        None
    } else {
        let v = digits_val(t, i, j);
        if v > u64::MAX {
            None
        } else {
            Some((v as u64, j))
        }
    }
}

/// Consumes the exact literal at `i`.
pub open spec fn parse_lit(t: Seq<char>, i: int, lit: Seq<char>) -> Option<int> {
    if 0 <= i && i + lit.len() <= t.len() && t.subrange(i, i + lit.len() as int) == lit {
        Some(i + lit.len() as int)
    } else {
        None
    }
}

/// Parses a string body up to and including its closing quote; a backslash
/// takes the next character literally.
pub open spec fn parse_string_body(t: Seq<char>, i: int) -> Option<(Seq<char>, int)>
    decreases t.len() - i,
{
    if i < 0 || i >= t.len() {
        None
    } else if t[i] == '"' {
        Some((Seq::empty(), i + 1))
    } else if t[i] == '\\' {
        if i + 1 < t.len() {
            match parse_string_body(t, i + 2) {
                Option::Some(p) => Some((seq![t[i + 1]] + p.0, p.1)),
                Option::None => None,
            }
        } else {
            None
        }
    } else {
        match parse_string_body(t, i + 1) {
            Option::Some(p) => Some((seq![t[i]] + p.0, p.1)),
            Option::None => None,
        }
    }
}

/// Parses a quoted string at `i`.
pub open spec fn parse_quoted(t: Seq<char>, i: int) -> Option<(Seq<char>, int)> {
    if 0 <= i < t.len() && t[i] == '"' {
        parse_string_body(t, i + 1)
    } else {
        None
    }
}

/// Parses an optional number: `null` for unset, digits for a value.
pub open spec fn parse_opt_u64(t: Seq<char>, i: int) -> Option<(Option<u64>, int)> {
    match parse_lit(t, i, "null"@) {
        Option::Some(j) => Some((Option::None, j)),
        Option::None => match parse_u64(t, i) {
            Option::Some(p) => Some((Some(p.0), p.1)),
            Option::None => None,
        },
    }
}

/// Parses a field key (a literal) followed by a quoted string.
pub open spec fn parse_key_quoted(t: Seq<char>, i: int, key: Seq<char>) -> Option<(Seq<char>, int)> {
    match parse_lit(t, i, key) {
        Option::Some(j) => parse_quoted(t, j),
        Option::None => None,
    }
}

/// Parses a field key (a literal) followed by a number.
pub open spec fn parse_key_u64(t: Seq<char>, i: int, key: Seq<char>) -> Option<(u64, int)> {
    match parse_lit(t, i, key) {
        Option::Some(j) => parse_u64(t, j),
        Option::None => None,
    }
}

/// Parses a field key (a literal) followed by an optional number.
pub open spec fn parse_key_opt_u64(t: Seq<char>, i: int, key: Seq<char>) -> Option<
    (Option<u64>, int),
> {
    match parse_lit(t, i, key) {
        Option::Some(j) => parse_opt_u64(t, j),
        Option::None => None,
    }
}

/// Parses one record object, fields in the fixed order of the format.
pub open spec fn parse_record(t: Seq<char>, i: int) -> Option<(BenchmarkResultView, int)> {
    match parse_key_quoted(t, i, "{\"model_size\":"@) {
        Option::None => None,
        Option::Some((ms, i1)) => match parse_key_quoted(t, i1, ",\"device\":"@) {
            Option::None => None,
            Option::Some((dev, i2)) => match parse_key_quoted(t, i2, ",\"compute_type\":"@) {
                Option::None => None,
                Option::Some((ct, i3)) => match parse_key_u64(t, i3, ",\"audio_duration_ms\":"@) {
                    Option::None => None,
                    Option::Some((ad, i4)) => match parse_key_u64(
                        t,
                        i4,
                        ",\"transcription_time_ms\":"@,
                    ) {
                        Option::None => None,
                        Option::Some((tt, i5)) => match parse_key_u64(
                            t,
                            i5,
                            ",\"real_time_factor_milli\":"@,
                        ) {
                            Option::None => None,
                            Option::Some((rtf, i6)) => match parse_key_opt_u64(
                                t,
                                i6,
                                ",\"memory_usage_mb\":"@,
                            ) {
                                Option::None => None,
                                Option::Some((mem, i7)) => match parse_key_opt_u64(
                                    t,
                                    i7,
                                    ",\"accuracy_score_milli\":"@,
                                ) {
                                    Option::None => None,
                                    Option::Some((acc, i8)) => match parse_key_u64(
                                        t,
                                        i8,
                                        ",\"segments_count\":"@,
                                    ) {
                                        Option::None => None,
                                        Option::Some((sc, i9)) => match parse_lit(t, i9, "}"@) {
                                            Option::None => None,
                                            Option::Some(i10) => Some(
                                                (
                                                    BenchmarkResultView {
                                                        model_size: ms,
                                                        device: dev,
                                                        compute_type: ct,
                                                        audio_duration_ms: ad,
                                                        transcription_time_ms: tt,
                                                        real_time_factor_milli: rtf,
                                                        memory_usage_mb: mem,
                                                        accuracy_score_milli: acc,
                                                        segments_count: sc,
                                                    },
                                                    i10,
                                                ),
                                            ),
                                        },
                                    },
                                },
                            },
                        },
                    },
                },
            },
        },
    }
}

/// Parses the rest of the array: either its closing bracket, or a comma and
/// a record, repeated.
pub open spec fn parse_records_rest(t: Seq<char>, i: int) -> Option<
    (Seq<BenchmarkResultView>, int),
>
    decreases t.len() - i,
{
    if i < 0 || i >= t.len() {
        None
    } else if t[i] == ']' {
        Some((Seq::empty(), i + 1))
    } else if t[i] == ',' {
        match parse_record(t, i + 1) {
            Option::None => None,
            Option::Some((r, j)) => if i + 1 < j <= t.len() {
                match parse_records_rest(t, j) {
                    Option::None => None,
                    Option::Some((rest, k)) => Some((seq![r] + rest, k)),
                }
            } else {
                None
            },
        }
    } else {
        None
    }
}

/// Parses a whole record array; the input must be consumed exactly.
pub open spec fn parse_records(t: Seq<char>) -> Option<Seq<BenchmarkResultView>> {
    if t.len() < 2 || t[0] != '[' {
        None
    } else if t[1] == ']' {
        if t.len() == 2 {
            Some(Seq::empty())
        } else {
            None
        }
    } else {
        match parse_record(t, 1) {
            Option::None => None,
            Option::Some((r, j)) => if 1 < j <= t.len() {
                match parse_records_rest(t, j) {
                    Option::None => None,
                    Option::Some((rest, k)) => if k == t.len() {
                        Some(seq![r] + rest)
                    } else {
                        None
                    },
                }
            } else {
                None
            },
        }
    }
}

// ---------------------------------------------------------------------------
// Round-trip lemmas: the parser inverts the serializer.
// ---------------------------------------------------------------------------

/// Every character the decimal serializer emits is a digit.
proof fn lemma_dec_digits_are_digits(n: int)
    requires
        0 <= n,
    ensures
        forall|k: int| 0 <= k < dec_digits(n).len() ==> is_digit(#[trigger] dec_digits(n)[k]),
    decreases n,
{
    if n < 10 {
        assert(dec_digits(n) == seq![digit_char(n)]);
        assert(dec_digits(n)[0] == digit_char(n));
        assert(is_digit(digit_char(n)));
    } else {
        lemma_dec_digits_are_digits(n / 10);
        let p = dec_digits(n / 10);
        let d = dec_digits(n);
        assert(d == p.push(digit_char(n % 10)));
        assert(forall|k: int| 0 <= k < d.len() ==> is_digit(#[trigger] d[k])) by {
            assert(forall|k: int| 0 <= k < p.len() ==> #[trigger] d[k] == p[k]);
            assert(d[p.len() as int] == digit_char(n % 10));
            assert(is_digit(digit_char(n % 10)));
        }
    }
}

/// A digit run bounded by a non-digit (or the end) ends exactly at the bound.
proof fn lemma_digit_run_end(t: Seq<char>, i: int, j: int)
    requires
        0 <= i <= j <= t.len(),
        forall|k: int| i <= k < j ==> is_digit(#[trigger] t[k]),
        j == t.len() || !is_digit(t[j]),
    ensures
        digit_run_end(t, i) == j,
    decreases j - i,
{
    if i < j {
        lemma_digit_run_end(t, i + 1, j);
    }
}

/// Reading back the digits of `n` gives `n`.
proof fn lemma_digits_val_of_dec(t: Seq<char>, i: int, n: int)
    requires
        0 <= n,
        0 <= i,
        i + dec_digits(n).len() <= t.len(),
        t.subrange(i, i + dec_digits(n).len() as int) == dec_digits(n),
    ensures
        digits_val(t, i, i + dec_digits(n).len() as int) == n,
    decreases n,
{
    let d = dec_digits(n);
    let len = d.len() as int;
    let u = t.subrange(i, i + len);
    if n < 10 {
        assert(u[0] == t[i]);
        assert(d[0] == digit_char(n));
        assert(t[i] == digit_char(n));
        assert(digits_val(t, i, i + 1) == digits_val(t, i, i) * 10 + digit_val(t[i]));
        assert(digit_val(digit_char(n)) == n);
    } else {
        let dprev = dec_digits(n / 10);
        let plen = dprev.len() as int;
        assert(d == dprev.push(digit_char(n % 10)));
        assert(len == plen + 1);
        assert(forall|k: int|
            0 <= k < plen ==> #[trigger] t.subrange(i, i + plen)[k] == u[k]);
        assert(t.subrange(i, i + plen) =~= dprev);
        lemma_digits_val_of_dec(t, i, n / 10);
        assert(u[len - 1] == t[i + len - 1]);
        assert(d[len - 1] == digit_char(n % 10));
        assert(digits_val(t, i, i + len) == digits_val(t, i, i + len - 1) * 10 + digit_val(
            t[i + len - 1],
        ));
        assert(digit_val(digit_char(n % 10)) == n % 10);
        assert((n / 10) * 10 + n % 10 == n);
    }
}

/// Parsing the serialized digits of `n`, with no digit right after them,
/// yields `n` and stops right after them.
proof fn lemma_parse_dec(t: Seq<char>, i: int, n: u64)
    requires
        0 <= i,
        i + dec_digits(n as int).len() <= t.len(),
        t.subrange(i, i + dec_digits(n as int).len() as int) == dec_digits(n as int),
        i + dec_digits(n as int).len() == t.len() || !is_digit(t[i + dec_digits(n as int).len()]),
    ensures
        parse_u64(t, i) == Some((n, i + dec_digits(n as int).len() as int)),
{
    let d = dec_digits(n as int);
    let len = d.len() as int;
    let u = t.subrange(i, i + len);
    assert(len >= 1) by {
        if n >= 10 {
            assert(d == dec_digits(n as int / 10).push(digit_char(n as int % 10)));
        }
    }
    lemma_dec_digits_are_digits(n as int);
    assert(forall|k: int| 0 <= k < len ==> is_digit(#[trigger] u[k]));
    assert(forall|k: int| i <= k < i + len ==> is_digit(#[trigger] t[k])) by {
        assert(forall|k: int| i <= k < i + len ==> #[trigger] t[k] == u[k - i]);
    }
    lemma_digit_run_end(t, i, i + len);
    lemma_digits_val_of_dec(t, i, n as int);
}

/// A literal standing verbatim at `i` parses to the position after it.
proof fn lemma_parse_lit(t: Seq<char>, i: int, lit: Seq<char>)
    requires
        0 <= i,
        i + lit.len() <= t.len(),
        t.subrange(i, i + lit.len() as int) == lit,
    ensures
        parse_lit(t, i, lit) == Some(i + lit.len() as int),
{
}

/// Splitting a placed concatenation places both of its parts.
proof fn lemma_split_prefix(t: Seq<char>, p: int, x: Seq<char>, rest: Seq<char>)
    requires
        0 <= p,
        p + x.len() + rest.len() <= t.len(),
        t.subrange(p, p + x.len() + rest.len() as int) == x + rest,
    ensures
        t.subrange(p, p + x.len() as int) == x,
        t.subrange(p + x.len() as int, p + x.len() + rest.len() as int) == rest,
{
    let whole = t.subrange(p, p + x.len() + rest.len() as int);
    assert(t.subrange(p, p + x.len() as int) =~= x) by {
        assert(forall|k: int|
            0 <= k < x.len() ==> #[trigger] t.subrange(p, p + x.len() as int)[k] == whole[k]);
    }
    assert(t.subrange(p + x.len() as int, p + x.len() + rest.len() as int) =~= rest) by {
        assert(forall|k: int|
            0 <= k < rest.len() ==> #[trigger] t.subrange(
                p + x.len() as int,
                p + x.len() + rest.len() as int,
            )[k] == whole[x.len() + k]);
    }
}

/// Parsing a placed escaped body, with the closing quote right after it,
/// recovers the unescaped text and stops after the quote.
proof fn lemma_parse_string_body(t: Seq<char>, i: int, s: Seq<char>)
    requires
        0 <= i,
        i + escaped(s).len() + 1 <= t.len(),
        t.subrange(i, i + escaped(s).len() as int) == escaped(s),
        t[i + escaped(s).len()] == '"',
    ensures
        parse_string_body(t, i) == Some((s, i + escaped(s).len() + 1)),
    decreases s.len(),
{
    let e = escaped(s);
    let elen = e.len() as int;
    let u = t.subrange(i, i + elen);
    if s.len() == 0 {
        assert(e =~= Seq::<char>::empty());
        assert(t[i] == '"');
    } else {
        let c = s[0];
        let erest = escaped(s.drop_first());
        assert(e == esc_char(c) + erest);
        let clen = esc_char(c).len() as int;
        assert(elen == clen + erest.len());
        assert(forall|k: int| 0 <= k < elen ==> #[trigger] u[k] == t[i + k]);
        assert(forall|k: int|
            0 <= k < erest.len() ==> #[trigger] t.subrange(
                i + clen,
                i + clen + erest.len() as int,
            )[k] == t[i + clen + k]);
        assert(t.subrange(i + clen, i + clen + erest.len() as int) =~= erest) by {
            assert(forall|k: int| 0 <= k < erest.len() ==> #[trigger] erest[k] == e[clen + k]);
        }
        assert(t[i + clen + erest.len()] == '"');
        lemma_parse_string_body(t, i + clen, s.drop_first());
        if c == '"' || c == '\\' {
            assert(u[0] == t[i] && u[1] == t[i + 1]);
            assert(e[0] == '\\' && e[1] == c);
            assert(seq![t[i + 1]] + s.drop_first() =~= s);
        } else {
            assert(u[0] == t[i]);
            assert(e[0] == c);
            assert(seq![t[i]] + s.drop_first() =~= s);
        }
    }
}

/// Parsing a placed quoted string recovers the text.
proof fn lemma_parse_quoted(t: Seq<char>, i: int, s: Seq<char>)
    requires
        0 <= i,
        i + quoted(s).len() <= t.len(),
        t.subrange(i, i + quoted(s).len() as int) == quoted(s),
    ensures
        parse_quoted(t, i) == Some((s, i + quoted(s).len() as int)),
{
    let q = quoted(s);
    let qlen = q.len() as int;
    let elen = escaped(s).len() as int;
    assert(qlen == elen + 2);
    let u = t.subrange(i, i + qlen);
    assert(forall|k: int| 0 <= k < qlen ==> #[trigger] u[k] == t[i + k]);
    assert(q[0] == '"');
    assert(t[i] == '"');
    assert(q[1 + elen] == '"');
    assert(t[i + 1 + elen] == '"');
    assert forall|k: int| 0 <= k < elen implies #[trigger] t.subrange(i + 1, i + 1 + elen)[k]
        == escaped(s)[k] by {
        assert(t.subrange(i + 1, i + 1 + elen)[k] == t[i + 1 + k]);
        assert(u[1 + k] == t[i + 1 + k]);
        assert(q[1 + k] == escaped(s)[k]);
    }
    assert(t.subrange(i + 1, i + 1 + elen) =~= escaped(s));
    lemma_parse_string_body(t, i + 1, s);
}

/// Parsing a placed optional number, with no digit right after it, recovers
/// it; `null` and a digit run are told apart by their first character.
proof fn lemma_parse_opt_u64(t: Seq<char>, i: int, o: Option<u64>)
    requires
        0 <= i,
        i + opt_u64_text(o).len() <= t.len(),
        t.subrange(i, i + opt_u64_text(o).len() as int) == opt_u64_text(o),
        i + opt_u64_text(o).len() == t.len() || !is_digit(t[i + opt_u64_text(o).len()]),
    ensures
        parse_opt_u64(t, i) == Some((o, i + opt_u64_text(o).len() as int)),
{
    reveal_strlit("null");
    match o {
        Option::None => {
            lemma_parse_lit(t, i, "null"@);
        },
        Option::Some(n) => {
            let d = dec_digits(n as int);
            lemma_parse_dec(t, i, n);
            lemma_dec_digits_are_digits(n as int);
            let u = t.subrange(i, i + d.len() as int);
            assert(u[0] == t[i]);
            assert(is_digit(t[i]));
            if 0 <= i && i + 4 <= t.len() && t.subrange(i, i + 4) == "null"@ {
                assert(t.subrange(i, i + 4)[0] == t[i]);
                assert(t[i] == 'n');
                assert(false);
            }
            assert(parse_lit(t, i, "null"@) is None);
        },
    }
}

/// A placed key and quoted string parse to the text.
proof fn lemma_parse_key_quoted(t: Seq<char>, i: int, key: Seq<char>, s: Seq<char>)
    requires
        0 <= i,
        i + key.len() + quoted(s).len() <= t.len(),
        t.subrange(i, i + key.len() + quoted(s).len() as int) == key + quoted(s),
    ensures
        parse_key_quoted(t, i, key) == Some((s, i + key.len() + quoted(s).len() as int)),
{
    lemma_split_prefix(t, i, key, quoted(s));
    lemma_parse_lit(t, i, key);
    lemma_parse_quoted(t, i + key.len() as int, s);
}

/// A placed key and number, with no digit right after them, parse to the
/// number.
proof fn lemma_parse_key_u64(t: Seq<char>, i: int, key: Seq<char>, n: u64)
    requires
        0 <= i,
        i + key.len() + dec_digits(n as int).len() <= t.len(),
        t.subrange(i, i + key.len() + dec_digits(n as int).len() as int) == key + dec_digits(
            n as int,
        ),
        i + key.len() + dec_digits(n as int).len() == t.len() || !is_digit(
            t[i + key.len() + dec_digits(n as int).len()],
        ),
    ensures
        parse_key_u64(t, i, key) == Some((n, i + key.len() + dec_digits(n as int).len() as int)),
{
    lemma_split_prefix(t, i, key, dec_digits(n as int));
    lemma_parse_lit(t, i, key);
    lemma_parse_dec(t, i + key.len() as int, n);
}

/// A placed key and optional number, with no digit right after them, parse
/// to the optional number.
proof fn lemma_parse_key_opt_u64(t: Seq<char>, i: int, key: Seq<char>, o: Option<u64>)
    requires
        0 <= i,
        i + key.len() + opt_u64_text(o).len() <= t.len(),
        t.subrange(i, i + key.len() + opt_u64_text(o).len() as int) == key + opt_u64_text(o),
        i + key.len() + opt_u64_text(o).len() == t.len() || !is_digit(
            t[i + key.len() + opt_u64_text(o).len()],
        ),
    ensures
        parse_key_opt_u64(t, i, key) == Some(
            (o, i + key.len() + opt_u64_text(o).len() as int),
        ),
{
    lemma_split_prefix(t, i, key, opt_u64_text(o));
    lemma_parse_lit(t, i, key);
    lemma_parse_opt_u64(t, i + key.len() as int, o);
}

/// A placed record parses to the record.
#[verifier::rlimit(60)]
proof fn lemma_parse_record(t: Seq<char>, i: int, r: BenchmarkResultView)
    requires
        0 <= i,
        i + record_text(r).len() <= t.len(),
        t.subrange(i, i + record_text(r).len() as int) == record_text(r),
    ensures
        parse_record(t, i) == Some((r, i + record_text(r).len() as int)),
        record_text(r).len() >= 1,
{
    reveal_strlit(",\"transcription_time_ms\":");
    reveal_strlit(",\"real_time_factor_milli\":");
    reveal_strlit(",\"memory_usage_mb\":");
    reveal_strlit(",\"accuracy_score_milli\":");
    reveal_strlit(",\"segments_count\":");
    reveal_strlit("}");
    let f1 = "{\"model_size\":"@ + quoted(r.model_size);
    let f2 = ",\"device\":"@ + quoted(r.device);
    let f3 = ",\"compute_type\":"@ + quoted(r.compute_type);
    let f4 = ",\"audio_duration_ms\":"@ + dec_digits(r.audio_duration_ms as int);
    let f5 = ",\"transcription_time_ms\":"@ + dec_digits(r.transcription_time_ms as int);
    let f6 = ",\"real_time_factor_milli\":"@ + dec_digits(r.real_time_factor_milli as int);
    let f7 = ",\"memory_usage_mb\":"@ + opt_u64_text(r.memory_usage_mb);
    let f8 = ",\"accuracy_score_milli\":"@ + opt_u64_text(r.accuracy_score_milli);
    let f9 = ",\"segments_count\":"@ + dec_digits(r.segments_count as int);
    let s10 = "}"@;
    let s9 = f9 + s10;
    let s8 = f8 + s9;
    let s7 = f7 + s8;
    let s6 = f6 + s7;
    let s5 = f5 + s6;
    let s4 = f4 + s5;
    let s3 = f3 + s4;
    let s2 = f2 + s3;
    let s1 = f1 + s2;
    assert(record_text(r) =~= s1);
    let p1 = i + f1.len() as int;
    let p2 = p1 + f2.len() as int;
    let p3 = p2 + f3.len() as int;
    let p4 = p3 + f4.len() as int;
    let p5 = p4 + f5.len() as int;
    let p6 = p5 + f6.len() as int;
    let p7 = p6 + f7.len() as int;
    let p8 = p7 + f8.len() as int;
    let p9 = p8 + f9.len() as int;
    let p10 = p9 + s10.len() as int;
    assert(t.subrange(i, i + s1.len() as int) == s1);
    lemma_split_prefix(t, i, f1, s2);
    lemma_split_prefix(t, p1, f2, s3);
    lemma_split_prefix(t, p2, f3, s4);
    lemma_split_prefix(t, p3, f4, s5);
    lemma_split_prefix(t, p4, f5, s6);
    lemma_split_prefix(t, p5, f6, s7);
    lemma_split_prefix(t, p6, f7, s8);
    lemma_split_prefix(t, p7, f8, s9);
    lemma_split_prefix(t, p8, f9, s10);
    // the character after each numeric field is a comma or the closing
    // brace, never a digit
    assert(t.subrange(p4, p4 + s5.len() as int)[0] == t[p4]);
    assert(s5[0] == ',');
    assert(t.subrange(p5, p5 + s6.len() as int)[0] == t[p5]);
    assert(s6[0] == ',');
    assert(t.subrange(p6, p6 + s7.len() as int)[0] == t[p6]);
    assert(s7[0] == ',');
    assert(t.subrange(p7, p7 + s8.len() as int)[0] == t[p7]);
    assert(s8[0] == ',');
    assert(t.subrange(p8, p8 + s9.len() as int)[0] == t[p8]);
    assert(s9[0] == ',');
    assert(t.subrange(p9, p9 + s10.len() as int)[0] == t[p9]);
    assert(s10[0] == '}');
    lemma_parse_key_quoted(t, i, "{\"model_size\":"@, r.model_size);
    lemma_parse_key_quoted(t, p1, ",\"device\":"@, r.device);
    lemma_parse_key_quoted(t, p2, ",\"compute_type\":"@, r.compute_type);
    lemma_parse_key_u64(t, p3, ",\"audio_duration_ms\":"@, r.audio_duration_ms);
    lemma_parse_key_u64(t, p4, ",\"transcription_time_ms\":"@, r.transcription_time_ms);
    lemma_parse_key_u64(t, p5, ",\"real_time_factor_milli\":"@, r.real_time_factor_milli);
    lemma_parse_key_opt_u64(t, p6, ",\"memory_usage_mb\":"@, r.memory_usage_mb);
    lemma_parse_key_opt_u64(t, p7, ",\"accuracy_score_milli\":"@, r.accuracy_score_milli);
    lemma_parse_key_u64(t, p8, ",\"segments_count\":"@, r.segments_count);
    lemma_parse_lit(t, p9, "}"@);
    assert(p10 == i + record_text(r).len() as int);
}

/// A placed tail of the array (the remaining records, each preceded by a
/// comma, then the closing bracket, ending the input) parses to exactly
/// those records.
proof fn lemma_parse_records_rest(t: Seq<char>, j: int, rs: Seq<BenchmarkResultView>, idx: int)
    requires
        0 <= j <= t.len(),
        0 <= idx <= rs.len(),
        t.subrange(j, t.len() as int) == records_text_rest(rs, idx) + "]"@,
    ensures
        parse_records_rest(t, j) == Some((rs.subrange(idx, rs.len() as int), t.len() as int)),
    decreases rs.len() - idx,
{
    reveal_strlit("]");
    reveal_strlit(",");
    reveal_strlit("{\"model_size\":");
    let suffix = t.subrange(j, t.len() as int);
    if idx >= rs.len() {
        assert(records_text_rest(rs, idx) + "]"@ =~= "]"@);
        assert(suffix.len() == 1);
        assert(suffix[0] == t[j]);
        assert(t[j] == ']');
        assert(j + 1 == t.len());
        assert(rs.subrange(idx, rs.len() as int) =~= Seq::<BenchmarkResultView>::empty());
    } else {
        let rec = record_text(rs[idx]);
        let rest = records_text_rest(rs, idx + 1) + "]"@;
        assert(records_text_rest(rs, idx) == ","@ + rec + records_text_rest(rs, idx + 1));
        assert(suffix =~= ","@ + (rec + rest));
        lemma_split_prefix(t, j, ","@, rec + rest);
        assert(t.subrange(j, j + 1)[0] == t[j]);
        assert(t[j] == ',');
        assert(!(t[j] == ']'));
        lemma_split_prefix(t, j + 1, rec, rest);
        lemma_parse_record(t, j + 1, rs[idx]);
        let jnext = j + 1 + rec.len() as int;
        assert(t.subrange(jnext, t.len() as int) == rest);
        lemma_parse_records_rest(t, jnext, rs, idx + 1);
        assert(seq![rs[idx]] + rs.subrange(idx + 1, rs.len() as int) =~= rs.subrange(
            idx,
            rs.len() as int,
        ));
    }
}

/// Round trip: parsing a serialized record sequence yields exactly the
/// records that were serialized, unset placeholders staying unset.
#[verifier::rlimit(100)]
pub proof fn lemma_json_round_trip(rs: Seq<BenchmarkResultView>)
    ensures
        parse_records(records_text(rs)) == Some(rs),
{
    reveal_strlit("[");
    reveal_strlit("]");
    reveal_strlit("{\"model_size\":");
    let t = records_text(rs);
    assert(t == "["@ + records_body(rs) + "]"@);
    if rs.len() == 0 {
        assert(t =~= "["@ + "]"@);
        assert(t.len() == 2);
        assert(t[0] == '[');
        assert(t[1] == ']');
        assert(parse_records(t) == Some(Seq::<BenchmarkResultView>::empty()));
        assert(Seq::<BenchmarkResultView>::empty() =~= rs);
    } else {
        let rec = record_text(rs[0]);
        let rest = records_text_rest(rs, 1) + "]"@;
        assert(t =~= "["@ + (rec + rest));
        assert(t.subrange(0, t.len() as int) =~= t);
        lemma_split_prefix(t, 0, "["@, rec + rest);
        assert(t.subrange(0, 1)[0] == t[0]);
        assert(t[0] == '[');
        lemma_split_prefix(t, 1, rec, rest);
        lemma_parse_record(t, 1, rs[0]);
        assert(t.subrange(1, 1 + rec.len() as int)[0] == t[1]);
        assert(rec[0] == '{');
        assert(t[1] == '{');
        assert(!(t[1] == ']'));
        let jnext = 1 + rec.len() as int;
        assert(t.subrange(jnext, t.len() as int) == rest);
        lemma_parse_records_rest(t, jnext, rs, 1);
        assert(seq![rs[0]] + rs.subrange(1, rs.len() as int) =~= rs);
    }
}

// ---------------------------------------------------------------------------
// The executable serializer.
// ---------------------------------------------------------------------------

/// The digit character of a value below ten.
fn dec_digit(d: u64) -> (c: char)
    requires
        d < 10,
    ensures
        c == digit_char(d as int),
{
    match d {
        0 => '0',
        1 => '1',
        2 => '2',
        3 => '3',
        4 => '4',
        5 => '5',
        6 => '6',
        7 => '7',
        8 => '8',
        _ => '9',
    }
}

/// Appends the decimal digits of `n`.
fn push_dec(out: &mut Vec<char>, n: u64)
    ensures
        final(out)@ == old(out)@ + dec_digits(n as int),
    decreases n,
{
    if n < 10 {
        out.push(dec_digit(n));
        assert(out@ =~= old(out)@ + dec_digits(n as int));
    } else {
        push_dec(out, n / 10);
        let ghost mid = out@;
        out.push(dec_digit(n % 10));
        assert(out@ =~= old(out)@ + dec_digits(n as int)) by {
            assert(dec_digits(n as int) == dec_digits(n as int / 10).push(
                digit_char(n as int % 10),
            ));
            assert(out@ == mid.push(digit_char(n as int % 10)));
        }
    }
}

/// Escaping distributes over appending one character.
proof fn lemma_escaped_snoc(s: Seq<char>, c: char)
    ensures
        escaped(s.push(c)) == escaped(s) + esc_char(c),
    decreases s.len(),
{
    if s.len() == 0 {
        assert(s.push(c)[0] == c);
        assert(s.push(c).drop_first() =~= Seq::<char>::empty());
        assert(escaped(Seq::<char>::empty()) == Seq::<char>::empty());
        assert(escaped(s.push(c)) == esc_char(c) + escaped(s.push(c).drop_first()));
        assert(escaped(s) == Seq::<char>::empty());
        assert(escaped(s.push(c)) =~= escaped(s) + esc_char(c));
    } else {
        assert(s.push(c)[0] == s[0]);
        assert(s.push(c).drop_first() =~= s.drop_first().push(c));
        lemma_escaped_snoc(s.drop_first(), c);
        assert(escaped(s.push(c)) == esc_char(s[0]) + escaped(s.drop_first().push(c)));
        assert(escaped(s.push(c)) =~= escaped(s) + esc_char(c));
    }
}

/// Appends a string as a JSON string: quoted, with quotes and backslashes
/// escaped.
fn push_quoted(out: &mut Vec<char>, s: &str)
    ensures
        final(out)@ == old(out)@ + quoted(s@),
{
    out.push('"');
    let cs = crate::text::chars_of_str(s);
    let mut i: usize = 0;
    while i < cs.len()
        invariant
            i <= cs@.len(),
            cs@ == s@,
            out@ == old(out)@ + seq!['"'] + escaped(s@.take(i as int)),
        decreases cs@.len() - i,
    {
        let c = cs[i];
        proof {
            lemma_escaped_snoc(s@.take(i as int), s@[i as int]);
            assert(s@.take(i as int).push(s@[i as int]) =~= s@.take(i + 1 as int));
        }
        let ghost before = out@;
        if c == '"' || c == '\\' {
            out.push('\\');
            out.push(c);
            assert(out@ =~= before + esc_char(s@[i as int]));
        } else {
            out.push(c);
            assert(out@ =~= before + esc_char(s@[i as int]));
        }
        assert(out@ =~= old(out)@ + seq!['"'] + escaped(s@.take(i + 1 as int)));
        i = i + 1;
    }
    assert(s@.take(cs@.len() as int) =~= s@);
    out.push('"');
    assert(out@ =~= old(out)@ + quoted(s@));
}

/// Appends an optional number: its digits, or `null`.
fn push_opt_u64(out: &mut Vec<char>, o: &Option<u64>)
    ensures
        final(out)@ == old(out)@ + opt_u64_text(*o),
{
    match o {
        Option::Some(v) => push_dec(out, *v),
        Option::None => crate::text::push_str_chars(out, "null"),
    }
}

/// Appends one record as a flat JSON object.
#[verifier::rlimit(60)]
fn push_record(out: &mut Vec<char>, r: &crate::benchmark::BenchmarkResult)
    ensures
        final(out)@ == old(out)@ + record_text(r@),
{
    crate::text::push_str_chars(out, "{\"model_size\":");
    push_quoted(out, r.model_size.as_str());
    crate::text::push_str_chars(out, ",\"device\":");
    push_quoted(out, r.device.as_str());
    crate::text::push_str_chars(out, ",\"compute_type\":");
    push_quoted(out, r.compute_type.as_str());
    crate::text::push_str_chars(out, ",\"audio_duration_ms\":");
    push_dec(out, r.audio_duration_ms);
    crate::text::push_str_chars(out, ",\"transcription_time_ms\":");
    push_dec(out, r.transcription_time_ms);
    crate::text::push_str_chars(out, ",\"real_time_factor_milli\":");
    push_dec(out, r.real_time_factor_milli);
    crate::text::push_str_chars(out, ",\"memory_usage_mb\":");
    push_opt_u64(out, &r.memory_usage_mb);
    crate::text::push_str_chars(out, ",\"accuracy_score_milli\":");
    push_opt_u64(out, &r.accuracy_score_milli);
    crate::text::push_str_chars(out, ",\"segments_count\":");
    push_dec(out, r.segments_count);
    crate::text::push_str_chars(out, "}");
    assert(out@ =~= old(out)@ + record_text(r@));
}

/// Serializes a record sequence to the persisted JSON format: a JSON array,
/// one flat object per record, in order, the unset placeholders as `null`.
pub fn results_json(results: &Vec<crate::benchmark::BenchmarkResult>) -> (out: Vec<char>)
    ensures
        out@ == records_text(results.deep_view()),
{
    let ghost rsv = results.deep_view();
    let mut out: Vec<char> = Vec::new();
    crate::text::push_str_chars(&mut out, "[");
    if results.len() > 0 {
        push_record(&mut out, &results[0]);
        proof {
            assert(records_text(rsv) =~= out@ + records_text_rest(rsv, 1) + "]"@);
        }
        let mut i: usize = 1;
        while i < results.len()
            invariant
                1 <= i <= results@.len(),
                rsv == results.deep_view(),
                rsv.len() == results@.len(),
                records_text(rsv) == out@ + records_text_rest(rsv, i as int) + "]"@,
            decreases results@.len() - i,
        {
            let ghost before = out@;
            crate::text::push_str_chars(&mut out, ",");
            push_record(&mut out, &results[i]);
            proof {
                assert(records_text_rest(rsv, i as int) == ","@ + record_text(rsv[i as int])
                    + records_text_rest(rsv, i + 1));
                assert(out@ + records_text_rest(rsv, i + 1) + "]"@ =~= before + records_text_rest(
                    rsv,
                    i as int,
                ) + "]"@);
            }
            i = i + 1;
        }
        crate::text::push_str_chars(&mut out, "]");
        assert(out@ =~= records_text(rsv));
    } else {
        crate::text::push_str_chars(&mut out, "]");
        assert(out@ =~= records_text(rsv));
    }
    out
}

// ---------------------------------------------------------------------------
// The executable parser.
// ---------------------------------------------------------------------------

/// Whether a character is a decimal digit.
fn is_digit_char(c: char) -> (b: bool)
    ensures
        b == is_digit(c),
{
    c == '0' || c == '1' || c == '2' || c == '3' || c == '4' || c == '5' || c == '6' || c == '7'
        || c == '8' || c == '9'
}

/// The value of a digit character.
fn digit_value(c: char) -> (d: u64)
    ensures
        d as int == digit_val(c),
{
    match c {
        '0' => 0,
        '1' => 1,
        '2' => 2,
        '3' => 3,
        '4' => 4,
        '5' => 5,
        '6' => 6,
        '7' => 7,
        '8' => 8,
        _ => 9,
    }
}

/// The end of the digit run starting at `i`.
fn digit_run_end_exec(t: &Vec<char>, i: usize) -> (j: usize)
    requires
        i <= t@.len(),
    ensures
        j as int == digit_run_end(t@, i as int),
        i <= j <= t@.len(),
    decreases t@.len() - i,
{
    if i < t.len() {
        if is_digit_char(t[i]) {
            return digit_run_end_exec(t, i + 1);
        }
    }
    i
}

/// The value of the digits in `[i, j)` never shrinks as the run grows.
proof fn lemma_digits_val_nonneg(t: Seq<char>, i: int, j: int)
    ensures
        digits_val(t, i, j) >= 0,
    decreases j - i,
{
    if j > i {
        lemma_digits_val_nonneg(t, i, j - 1);
    }
}

/// A longer digit run never has a smaller value.
proof fn lemma_digits_val_mono(t: Seq<char>, i: int, k: int, j: int)
    requires
        i <= k <= j,
    ensures
        digits_val(t, i, k) <= digits_val(t, i, j),
    decreases j - k,
{
    if k < j {
        lemma_digits_val_mono(t, i, k, j - 1);
        lemma_digits_val_nonneg(t, i, j - 1);
    }
}

/// Parses the number at `i`.
fn parse_u64_at(t: &Vec<char>, i: usize) -> (r: Option<(u64, usize)>)
    requires
        i <= t@.len(),
    ensures
        match r {
            Some(p) => parse_u64(t@, i as int) == Some((p.0, p.1 as int)) && i < p.1 <= t@.len(),
            None => parse_u64(t@, i as int) is None,
        },
{
    let j = digit_run_end_exec(t, i);
    if j == i {
        return None;
    }
    let mut acc: u128 = 0;
    let mut k: usize = i;
    while k < j
        invariant
            i <= k <= j <= t@.len(),
            j as int == digit_run_end(t@, i as int),
            acc == digits_val(t@, i as int, k as int),
            acc <= u64::MAX as u128,
        decreases j - k,
    {
        let d = digit_value(t[k]);
        let acc2: u128 = acc * 10 + d as u128;
        assert(acc2 == digits_val(t@, i as int, k + 1 as int));
        if acc2 > u64::MAX as u128 {
            proof {
                lemma_digits_val_mono(t@, i as int, k + 1 as int, j as int);
            }
            return None;
        }
        acc = acc2;
        k = k + 1;
    }
    Some((acc as u64, j))
}

/// Consumes the given literal at `i`, if it stands there.
fn expect_lit(t: &Vec<char>, i: usize, s: &str) -> (r: Option<usize>)
    requires
        i <= t@.len(),
    ensures
        match r {
            Some(j) => parse_lit(t@, i as int, s@) == Some(j as int) && i <= j <= t@.len(),
            None => parse_lit(t@, i as int, s@) is None,
        },
{
    let n = s.unicode_len();
    let tlen = t.len();
    if n > tlen - i {
        return None;
    }
    let mut k: usize = 0;
    while k < n
        invariant
            k <= n,
            n == s@.len(),
            tlen == t@.len(),
            i + n <= tlen,
            forall|m: int| 0 <= m < k ==> t@[i + m] == s@[m],
        decreases n - k,
    {
        if t[i + k] != s.get_char(k) {
            proof {
                if t@.subrange(i as int, i + n as int) == s@ {
                    assert(t@.subrange(i as int, i + n as int)[k as int] == t@[i + k]);
                    assert(false);
                }
            }
            return None;
        }
        k = k + 1;
    }
    proof {
        assert(t@.subrange(i as int, i + n as int) =~= s@) by {
            assert(forall|m: int|
                0 <= m < n ==> #[trigger] t@.subrange(i as int, i + n as int)[m] == t@[i + m]);
        }
    }
    Some(i + n)
}

/// Parses a string body up to its closing quote.
fn parse_string_body_exec(t: &Vec<char>, i: usize) -> (r: Option<(Vec<char>, usize)>)
    requires
        i <= t@.len(),
    ensures
        match r {
            Some(p) => parse_string_body(t@, i as int) == Some((p.0@, p.1 as int)) && i < p.1
                <= t@.len(),
            None => parse_string_body(t@, i as int) is None,
        },
    decreases t@.len() - i,
{
    if i >= t.len() {
        return None;
    }
    let c = t[i];
    if c == '"' {
        let v: Vec<char> = Vec::new();
        assert(v@ =~= Seq::<char>::empty());
        return Some((v, i + 1));
    }
    if c == '\\' {
        if i + 1 < t.len() {
            match parse_string_body_exec(t, i + 2) {
                Some((mut v, j)) => {
                    let ghost rest = v@;
                    v.insert(0, t[i + 1]);
                    assert(v@ =~= seq![t@[i + 1]] + rest);
                    Some((v, j))
                },
                None => None,
            }
        } else {
            None
        }
    } else {
        match parse_string_body_exec(t, i + 1) {
            Some((mut v, j)) => {
                let ghost rest = v@;
                v.insert(0, c);
                assert(v@ =~= seq![t@[i as int]] + rest);
                Some((v, j))
            },
            None => None,
        }
    }
}

/// Parses the quoted string at `i`.
fn parse_quoted_at(t: &Vec<char>, i: usize) -> (r: Option<(Vec<char>, usize)>)
    requires
        i <= t@.len(),
    ensures
        match r {
            Some(p) => parse_quoted(t@, i as int) == Some((p.0@, p.1 as int)) && i < p.1
                <= t@.len(),
            None => parse_quoted(t@, i as int) is None,
        },
{
    if i >= t.len() {
        return None;
    }
    if t[i] != '"' {
        return None;
    }
    parse_string_body_exec(t, i + 1)
}

/// Parses the optional number at `i`: `null`, or digits.
fn parse_opt_u64_at(t: &Vec<char>, i: usize) -> (r: Option<(Option<u64>, usize)>)
    requires
        i <= t@.len(),
    ensures
        match r {
            Some(p) => parse_opt_u64(t@, i as int) == Some((p.0, p.1 as int)) && i < p.1
                <= t@.len(),
            None => parse_opt_u64(t@, i as int) is None,
        },
{
    match expect_lit(t, i, "null") {
        Some(j) => {
            proof {
                reveal_strlit("null");
            }
            Some((None, j))
        },
        None => match parse_u64_at(t, i) {
            Some(p) => Some((Some(p.0), p.1)),
            None => None,
        },
    }
}

/// Parses the record object at `i`.
fn parse_record_at(t: &Vec<char>, i: usize) -> (r: Option<(crate::benchmark::BenchmarkResult, usize)>)
    requires
        i <= t@.len(),
    ensures
        match r {
            Some(p) => parse_record(t@, i as int) == Some((p.0@, p.1 as int)) && i < p.1
                <= t@.len(),
            None => parse_record(t@, i as int) is None,
        },
{
    let i1 = match expect_lit(t, i, "{\"model_size\":") {
        Some(j) => j,
        None => {
            return None;
        },
    };
    let (ms, i1b) = match parse_quoted_at(t, i1) {
        Some(p) => p,
        None => {
            return None;
        },
    };
    let i2 = match expect_lit(t, i1b, ",\"device\":") {
        Some(j) => j,
        None => {
            return None;
        },
    };
    let (dev, i2b) = match parse_quoted_at(t, i2) {
        Some(p) => p,
        None => {
            return None;
        },
    };
    let i3 = match expect_lit(t, i2b, ",\"compute_type\":") {
        Some(j) => j,
        None => {
            return None;
        },
    };
    let (ct, i3b) = match parse_quoted_at(t, i3) {
        Some(p) => p,
        None => {
            return None;
        },
    };
    let i4 = match expect_lit(t, i3b, ",\"audio_duration_ms\":") {
        Some(j) => j,
        None => {
            return None;
        },
    };
    let (ad, i4b) = match parse_u64_at(t, i4) {
        Some(p) => p,
        None => {
            return None;
        },
    };
    let i5 = match expect_lit(t, i4b, ",\"transcription_time_ms\":") {
        Some(j) => j,
        None => {
            return None;
        },
    };
    let (tt, i5b) = match parse_u64_at(t, i5) {
        Some(p) => p,
        None => {
            return None;
        },
    };
    let i6 = match expect_lit(t, i5b, ",\"real_time_factor_milli\":") {
        Some(j) => j,
        None => {
            return None;
        },
    };
    let (rtf, i6b) = match parse_u64_at(t, i6) {
        Some(p) => p,
        None => {
            return None;
        },
    };
    let i7 = match expect_lit(t, i6b, ",\"memory_usage_mb\":") {
        Some(j) => j,
        None => {
            return None;
        },
    };
    let (mem, i7b) = match parse_opt_u64_at(t, i7) {
        Some(p) => p,
        None => {
            return None;
        },
    };
    let i8 = match expect_lit(t, i7b, ",\"accuracy_score_milli\":") {
        Some(j) => j,
        None => {
            return None;
        },
    };
    let (acc, i8b) = match parse_opt_u64_at(t, i8) {
        Some(p) => p,
        None => {
            return None;
        },
    };
    let i9 = match expect_lit(t, i8b, ",\"segments_count\":") {
        Some(j) => j,
        None => {
            return None;
        },
    };
    let (sc, i9b) = match parse_u64_at(t, i9) {
        Some(p) => p,
        None => {
            return None;
        },
    };
    let i10 = match expect_lit(t, i9b, "}") {
        Some(j) => j,
        None => {
            return None;
        },
    };
    let rec = crate::benchmark::BenchmarkResult {
        model_size: crate::text::string_from_chars(&ms),
        device: crate::text::string_from_chars(&dev),
        compute_type: crate::text::string_from_chars(&ct),
        audio_duration_ms: ad,
        transcription_time_ms: tt,
        real_time_factor_milli: rtf,
        memory_usage_mb: mem,
        accuracy_score_milli: acc,
        segments_count: sc,
    };
    Some((rec, i10))
}

/// Parses the tail of the array at `i`.
fn parse_records_rest_exec(t: &Vec<char>, i: usize) -> (r: Option<
    (Vec<crate::benchmark::BenchmarkResult>, usize),
>)
    requires
        i <= t@.len(),
    ensures
        match r {
            Some(p) => parse_records_rest(t@, i as int) == Some((p.0.deep_view(), p.1 as int))
                && p.1 <= t@.len(),
            None => parse_records_rest(t@, i as int) is None,
        },
    decreases t@.len() - i,
{
    if i >= t.len() {
        return None;
    }
    let c = t[i];
    if c == ']' {
        let v: Vec<crate::benchmark::BenchmarkResult> = Vec::new();
        assert(v.deep_view() =~= Seq::<BenchmarkResultView>::empty());
        return Some((v, i + 1));
    }
    if c != ',' {
        return None;
    }
    match parse_record_at(t, i + 1) {
        None => None,
        Some((rec, j)) => match parse_records_rest_exec(t, j) {
            None => None,
            Some((mut v, k)) => {
                let ghost rest = v.deep_view();
                let ghost rv = rec@;
                v.insert(0, rec);
                assert(v.deep_view() =~= seq![rv] + rest);
                Some((v, k))
            },
        },
    }
}

/// Parses a whole persisted record array; fails unless the input is exactly
/// one serialized record sequence.
pub fn parse_results_json(text: &Vec<char>) -> (r: Option<Vec<crate::benchmark::BenchmarkResult>>)
    ensures
        match r {
            Some(v) => parse_records(text@) == Some(v.deep_view()),
            None => parse_records(text@) is None,
        },
{
    if text.len() < 2 {
        return None;
    }
    if text[0] != '[' {
        return None;
    }
    if text[1] == ']' {
        if text.len() == 2 {
            let v: Vec<crate::benchmark::BenchmarkResult> = Vec::new();
            assert(v.deep_view() =~= Seq::<BenchmarkResultView>::empty());
            return Some(v);
        } else {
            return None;
        }
    }
    match parse_record_at(text, 1) {
        None => None,
        Some((rec, j)) => match parse_records_rest_exec(text, j) {
            None => None,
            Some((mut v, k)) => {
                if k == text.len() {
                    let ghost rest = v.deep_view();
                    let ghost rv = rec@;
                    v.insert(0, rec);
                    assert(v.deep_view() =~= seq![rv] + rest);
                    Some(v)
                } else {
                    None
                }
            },
        },
    }
}

} // verus!
