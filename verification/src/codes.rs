//! Year-scoped identifier generation: sequential member codes
//! (`MBR-<year>-<seq>`) and book barcodes (`B-<year>-<id>`), both with the
//! numeric part zero-padded to at least four digits.
//!
//! The next member code is derived from the greatest existing code of the
//! year: its numeric suffix plus one, falling back to one when no code
//! exists yet or the suffix does not parse.

use vstd::prelude::*;
use vstd::string::StrSliceExecFns;
use vstd::string::StringExecFns;

verus! {

/// The decimal digit character for `d`.
pub open spec fn digit_char(d: int) -> char {
    if d == 0 {
        '0'
    } else if d == 1 {
        '1'
    } else if d == 2 {
        '2'
    } else if d == 3 {
        '3'
    } else if d == 4 {
        '4'
    } else if d == 5 {
        '5'
    } else if d == 6 {
        '6'
    } else if d == 7 {
        '7'
    } else if d == 8 {
        '8'
    } else {
        '9'
    }
}

/// `c` is a decimal digit character.
pub open spec fn is_digit(c: char) -> bool {
    48 <= (c as u32) <= 57
}

/// The plain decimal rendering of `n`, most significant digit first.
pub open spec fn spec_decimal(n: nat) -> Seq<char>
    decreases n,
{
    if n < 10 {
        seq![digit_char(n as int)]
    } else {
        spec_decimal(n / 10).push(digit_char((n % 10) as int))
    }
}

/// The decimal rendering of `n`, zero-padded on the left to at least four
/// digits.
pub open spec fn spec_padded4(n: nat) -> Seq<char> {
    if n < 10 {
        seq!['0', '0', '0'] + spec_decimal(n)
    } else if n < 100 {
        seq!['0', '0'] + spec_decimal(n)
    } else if n < 1000 {
        seq!['0'] + spec_decimal(n)
    } else {
        spec_decimal(n)
    }
}

fn append_digit(s: &mut String, d: u64)
    requires
        d < 10,
    ensures
        final(s)@ == old(s)@.push(digit_char(d as int)),
{
    let piece: &str = if d == 0 {
        "0"
    } else if d == 1 {
        "1"
    } else if d == 2 {
        "2"
    } else if d == 3 {
        "3"
    } else if d == 4 {
        "4"
    } else if d == 5 {
        "5"
    } else if d == 6 {
        "6"
    } else if d == 7 {
        "7"
    } else if d == 8 {
        "8"
    } else {
        "9"
    };
    proof {
        reveal_strlit("0");
        reveal_strlit("1");
        reveal_strlit("2");
        reveal_strlit("3");
        reveal_strlit("4");
        reveal_strlit("5");
        reveal_strlit("6");
        reveal_strlit("7");
        reveal_strlit("8");
        reveal_strlit("9");
        assert(piece@ =~= seq![digit_char(d as int)]);
    }
    s.append(piece);
    proof {
        assert(old(s)@ + piece@ =~= old(s)@.push(digit_char(d as int)));
    }
}

fn append_decimal(s: &mut String, n: u64)
    ensures
        final(s)@ == old(s)@ + spec_decimal(n as nat),
    decreases n,
{
    if n < 10 {
        append_digit(s, n);
        proof {
            assert(old(s)@.push(digit_char(n as int)) =~= old(s)@ + spec_decimal(n as nat));
        }
    } else {
        append_decimal(s, n / 10);
        append_digit(s, n % 10);
        proof {
            assert((old(s)@ + spec_decimal((n / 10) as nat)).push(digit_char((n % 10) as int))
                =~= old(s)@ + spec_decimal(n as nat));
        }
    }
}

fn append_padded4(s: &mut String, n: u64)
    ensures
        final(s)@ == old(s)@ + spec_padded4(n as nat),
{
    proof {
        reveal_strlit("000");
        reveal_strlit("00");
        reveal_strlit("0");
    }
    let ghost before = s@;
    if n < 10 {
        s.append("000");
    } else if n < 100 {
        s.append("00");
    } else if n < 1000 {
        s.append("0");
    }
    append_decimal(s, n);
    proof {
        assert(final(s)@ =~= before + spec_padded4(n as nat));
    }
}

/// The member code of year `year` with sequence number `seq_num`.
pub open spec fn spec_member_code(year: nat, seq_num: nat) -> Seq<char> {
    "MBR-"@ + spec_padded4(year) + "-"@ + spec_padded4(seq_num)
}

/// The barcode a book gets at creation, from the creation year and the
/// book's row identity.
pub open spec fn spec_barcode(year: nat, id: nat) -> Seq<char> {
    "B-"@ + spec_padded4(year) + "-"@ + spec_padded4(id)
}

/// Renders `MBR-<year>-<seq>`, the numeric parts zero-padded to four
/// digits.
pub fn render_member_code(year: u64, seq_num: u64) -> (code: String)
    ensures
        code@ == spec_member_code(year as nat, seq_num as nat),
{
    let mut s = String::new();
    s.append("MBR-");
    append_padded4(&mut s, year);
    s.append("-");
    append_padded4(&mut s, seq_num);
    s
}

/// The prefix shared by all member codes of `year`, used to scope the scan
/// for the greatest existing code.
pub open spec fn spec_year_prefix(year: nat) -> Seq<char> {
    "MBR-"@ + spec_padded4(year)
}

/// Renders `MBR-<year>`, the pattern prefix for codes of that year.
pub fn render_year_prefix(year: u64) -> (prefix: String)
    ensures
        prefix@ == spec_year_prefix(year as nat),
{
    let mut s = String::new();
    s.append("MBR-");
    append_padded4(&mut s, year);
    s
}

/// Renders `B-<year>-<id>`: a book's barcode, assigned once at creation.
pub fn book_barcode(year: u64, id: u64) -> (code: String)
    ensures
        code@ == spec_barcode(year as nat, id as nat),
{
    let mut s = String::new();
    s.append("B-");
    append_padded4(&mut s, year);
    s.append("-");
    append_padded4(&mut s, id);
    s
}

/// Count of dash characters in `s`.
pub open spec fn spec_dash_count(s: Seq<char>) -> nat
    decreases s.len(),
{
    if s.len() == 0 {
        0
    } else {
        spec_dash_count(s.drop_last()) + if s.last() == '-' {
            1nat
        } else {
            0nat
        }
    }
}

/// Index of the last dash in `s`, or -1 when there is none.
pub open spec fn spec_last_dash(s: Seq<char>) -> int
    decreases s.len(),
{
    if s.len() == 0 {
        -1
    } else if s.last() == '-' {
        s.len() - 1
    } else {
        spec_last_dash(s.drop_last())
    }
}

/// The numeric value of a digit sequence.
pub open spec fn spec_digits_value(s: Seq<char>) -> int
    decreases s.len(),
{
    if s.len() == 0 {
        0
    } else {
        10 * spec_digits_value(s.drop_last()) + ((s.last() as u32) - 48)
    }
}

/// A non-empty all-digit sequence whose value fits the store's signed
/// 64-bit integers; anything else counts as a failed parse.
pub open spec fn spec_parses(s: Seq<char>) -> bool {
    s.len() > 0 && (forall|i: int| 0 <= i < s.len() ==> is_digit(s[i])) && spec_digits_value(s)
        <= i64::MAX
}

/// The sequence number the next generated code of the year gets, derived
/// from the greatest existing code: split on dashes into exactly three
/// parts and take the third part's numeric value plus one; any malformed
/// shape falls back to one, as does the absence of any code.
pub open spec fn spec_next_seq(last_code: Option<Seq<char>>) -> nat {
    match last_code {
        Option::None => 1,
        Option::Some(code) => {
            let suffix = code.subrange(spec_last_dash(code) + 1, code.len() as int);
            if spec_dash_count(code) == 2 && spec_parses(suffix) {
                (spec_digits_value(suffix) + 1) as nat
            } else {
                1
            }
        },
    }
}

proof fn lemma_digits_value_nonneg(s: Seq<char>)
    requires
        forall|i: int| 0 <= i < s.len() ==> is_digit(s[i]),
    ensures
        spec_digits_value(s) >= 0,
    decreases s.len(),
{
    if s.len() > 0 {
        lemma_digits_value_nonneg(s.drop_last());
    }
}

/// Parses a non-empty, all-digit string whose value fits in `i64`;
/// anything else is `None`.
fn parse_digits(s: &str) -> (r: Option<u64>)
    ensures
        match r {
            Option::Some(v) => spec_parses(s@) && v == spec_digits_value(s@),
            Option::None => !spec_parses(s@),
        },
{
    let len = s.unicode_len();
    if len == 0 {
        return Option::None;
    }
    let mut acc: u64 = 0;
    let mut too_big: bool = false;
    let mut i: usize = 0;
    proof {
        assert(s@.subrange(0, 0) =~= Seq::<char>::empty());
    }
    while i < len
        invariant
            0 <= i <= len,
            len == s@.len(),
            forall|j: int| 0 <= j < i ==> is_digit(s@[j]),
            !too_big ==> acc == spec_digits_value(s@.subrange(0, i as int)),
            !too_big ==> acc <= i64::MAX,
            too_big ==> spec_digits_value(s@.subrange(0, i as int)) > i64::MAX,
        decreases len - i,
    {
        let c = s.get_char(i);
        let cv = c as u32;
        if cv < 48 || cv > 57 {
            return Option::None;
        }
        let d: u64 = (cv - 48) as u64;
        let ghost prefix = s@.subrange(0, i as int);
        let ghost extended = s@.subrange(0, i as int + 1);
        proof {
            assert(extended.drop_last() =~= prefix);
            assert(extended.last() == s@[i as int]);
        }
        if !too_big {
            // 9223372036854775807 is i64::MAX; the next digit would push the
            // value past it exactly when acc exceeds (i64::MAX - d) / 10.
            let limit: u64 = (9223372036854775807u64 - d) / 10;
            if acc > limit {
                too_big = true;
                proof {
                    assert(10 * (acc as int) + d > i64::MAX) by (nonlinear_arith)
                        requires
                            acc > (9223372036854775807 - d) / 10,
                            0 <= d < 10,
                    ;
                }
            } else {
                proof {
                    assert(10 * (acc as int) + d <= i64::MAX) by (nonlinear_arith)
                        requires
                            acc <= (9223372036854775807 - d) / 10,
                            0 <= d < 10,
                    ;
                }
                acc = acc * 10 + d;
            }
        } else {
            proof {
                lemma_digits_value_nonneg(prefix);
            }
        }
        i = i + 1;
    }
    proof {
        assert(s@.subrange(0, len as int) =~= s@);
    }
    if too_big {
        Option::None
    } else {
        Option::Some(acc)
    }
}

/// The sequence number for the next member code of the year, given the
/// greatest existing code of that year, if any.
pub fn next_sequence_number(last_code: Option<&str>) -> (n: u64)
    ensures
        n == spec_next_seq(match last_code {
            Option::Some(c) => Option::Some(c@),
            Option::None => Option::None,
        }),
        1 <= n <= 0x8000_0000_0000_0000u64,
{
    let code: &str = match last_code {
        Option::None => {
            return 1;
        },
        Option::Some(c) => c,
    };
    let len = code.unicode_len();
    let mut dashes: u64 = 0;
    let mut last_dash: usize = 0;
    let mut i: usize = 0;
    proof {
        assert(code@.subrange(0, 0) =~= Seq::<char>::empty());
    }
    while i < len
        invariant
            0 <= i <= len,
            len == code@.len(),
            dashes == spec_dash_count(code@.subrange(0, i as int)),
            dashes <= i,
            dashes > 0 ==> last_dash < i && code@[last_dash as int] == '-'
                && last_dash == spec_last_dash(code@.subrange(0, i as int)),
            dashes == 0 ==> spec_last_dash(code@.subrange(0, i as int)) == -1,
        decreases len - i,
    {
        let ghost prefix = code@.subrange(0, i as int);
        let ghost extended = code@.subrange(0, i as int + 1);
        proof {
            assert(extended.drop_last() =~= prefix);
            assert(extended.last() == code@[i as int]);
        }
        if code.get_char(i) == '-' {
            dashes = dashes + 1;
            last_dash = i;
        }
        i = i + 1;
    }
    proof {
        assert(code@.subrange(0, len as int) =~= code@);
    }
    if dashes != 2 {
        return 1;
    }
    let suffix = code.substring_char(last_dash + 1, len);
    match parse_digits(suffix) {
        Option::Some(v) => v + 1,
        Option::None => 1,
    }
}

proof fn lemma_decimal_digits(n: nat)
    ensures
        spec_decimal(n).len() >= 1,
        forall|i: int| 0 <= i < spec_decimal(n).len() ==> is_digit(#[trigger] spec_decimal(n)[i]),
    decreases n,
{
    if n >= 10 {
        lemma_decimal_digits(n / 10);
    }
}

proof fn lemma_padded4_digits(n: nat)
    ensures
        spec_padded4(n).len() >= 1,
        forall|i: int| 0 <= i < spec_padded4(n).len() ==> is_digit(#[trigger] spec_padded4(n)[i]),
{
    lemma_decimal_digits(n);
}

proof fn lemma_decimal_value(n: nat)
    ensures
        spec_digits_value(spec_decimal(n)) == n,
    decreases n,
{
    if n < 10 {
        assert(spec_decimal(n).drop_last() =~= Seq::<char>::empty());
        assert(spec_digits_value(Seq::<char>::empty()) == 0);
        assert(spec_decimal(n).last() == digit_char(n as int));
    } else {
        lemma_decimal_value(n / 10);
        assert(spec_decimal(n).drop_last() =~= spec_decimal(n / 10));
        assert(spec_decimal(n).last() == digit_char((n % 10) as int));
    }
}

proof fn lemma_all_zeros_value(zeros: Seq<char>)
    requires
        forall|i: int| 0 <= i < zeros.len() ==> zeros[i] == '0',
    ensures
        spec_digits_value(zeros) == 0,
    decreases zeros.len(),
{
    if zeros.len() > 0 {
        lemma_all_zeros_value(zeros.drop_last());
    }
}

proof fn lemma_zero_prefix_value(zeros: Seq<char>, s: Seq<char>)
    requires
        forall|i: int| 0 <= i < zeros.len() ==> zeros[i] == '0',
    ensures
        spec_digits_value(zeros + s) == spec_digits_value(s),
    decreases s.len(),
{
    if s.len() == 0 {
        assert(zeros + s =~= zeros);
        lemma_all_zeros_value(zeros);
    } else {
        lemma_zero_prefix_value(zeros, s.drop_last());
        assert((zeros + s).drop_last() =~= zeros + s.drop_last());
        assert((zeros + s).last() == s.last());
    }
}

proof fn lemma_padded4_value(n: nat)
    ensures
        spec_digits_value(spec_padded4(n)) == n,
{
    lemma_decimal_value(n);
    if n < 10 {
        lemma_zero_prefix_value(seq!['0', '0', '0'], spec_decimal(n));
    } else if n < 100 {
        lemma_zero_prefix_value(seq!['0', '0'], spec_decimal(n));
    } else if n < 1000 {
        lemma_zero_prefix_value(seq!['0'], spec_decimal(n));
    }
}

proof fn lemma_dash_count_concat(a: Seq<char>, b: Seq<char>)
    ensures
        spec_dash_count(a + b) == spec_dash_count(a) + spec_dash_count(b),
    decreases b.len(),
{
    if b.len() == 0 {
        assert(a + b =~= a);
    } else {
        lemma_dash_count_concat(a, b.drop_last());
        assert((a + b).drop_last() =~= a + b.drop_last());
        assert((a + b).last() == b.last());
    }
}

proof fn lemma_no_dash(s: Seq<char>)
    requires
        forall|i: int| 0 <= i < s.len() ==> s[i] != '-',
    ensures
        spec_dash_count(s) == 0,
        spec_last_dash(s) == -1,
    decreases s.len(),
{
    if s.len() > 0 {
        lemma_no_dash(s.drop_last());
    }
}

proof fn lemma_last_dash_concat_no_dash(a: Seq<char>, b: Seq<char>)
    requires
        forall|i: int| 0 <= i < b.len() ==> b[i] != '-',
    ensures
        spec_last_dash(a + b) == spec_last_dash(a),
    decreases b.len(),
{
    if b.len() == 0 {
        assert(a + b =~= a);
    } else {
        lemma_last_dash_concat_no_dash(a, b.drop_last());
        assert((a + b).drop_last() =~= a + b.drop_last());
        assert((a + b).last() == b.last());
    }
}

/// Generating a code and deriving the next sequence number from it round
/// trip: the code rendered for sequence number `n` parses back so that the
/// next code of the same year gets sequence number `n + 1`. This is why
/// consecutive calls within one year count up by one.
pub proof fn lemma_member_code_round_trip(year: nat, n: nat)
    requires
        n <= i64::MAX,
    ensures
        spec_next_seq(Option::Some(spec_member_code(year, n))) == n + 1,
{
    reveal_strlit("MBR-");
    reveal_strlit("-");
    let code = spec_member_code(year, n);
    let head = "MBR-"@ + spec_padded4(year) + "-"@;
    lemma_padded4_digits(year);
    lemma_padded4_digits(n);
    lemma_padded4_value(n);

    // Exactly two dashes: one in "MBR-", one separator, none among digits.
    lemma_dash_count_concat("MBR-"@ + spec_padded4(year), "-"@);
    lemma_dash_count_concat("MBR-"@, spec_padded4(year));
    lemma_dash_count_concat(head, spec_padded4(n));
    lemma_no_dash(spec_padded4(year));
    lemma_no_dash(spec_padded4(n));
    let m = "MBR-"@;
    assert(m.drop_last().drop_last().drop_last().drop_last() =~= Seq::<char>::empty());
    assert(spec_dash_count(Seq::<char>::empty()) == 0);
    assert(m.drop_last().drop_last().drop_last().last() == 'M');
    assert(spec_dash_count(m.drop_last().drop_last().drop_last()) == 0);
    assert(m.drop_last().drop_last().last() == 'B');
    assert(spec_dash_count(m.drop_last().drop_last()) == 0);
    assert(m.drop_last().last() == 'R');
    assert(spec_dash_count(m.drop_last()) == 0);
    assert(m.last() == '-');
    assert(spec_dash_count(m) == 1);
    assert("-"@.drop_last() =~= Seq::<char>::empty());
    assert(spec_dash_count("-"@) == 1);
    assert(code =~= head + spec_padded4(n));
    assert(spec_dash_count(code) == 2);

    // The last dash is the separator right before the numeric suffix.
    lemma_last_dash_concat_no_dash(head, spec_padded4(n));
    assert(head =~= ("MBR-"@ + spec_padded4(year)).push('-'));
    assert(spec_last_dash(head) == head.len() - 1);
    assert(code.subrange(spec_last_dash(code) + 1, code.len() as int) =~= spec_padded4(n));
}

/// The next member code for `year`, given the greatest code already stored
/// for that year, if any: the parsed sequence number plus one, or one on a
/// missing or malformed predecessor.
pub fn next_member_code(year: u64, last_code: Option<&str>) -> (code: String)
    ensures
        code@ == spec_member_code(
            year as nat,
            spec_next_seq(match last_code {
                Option::Some(c) => Option::Some(c@),
                Option::None => Option::None,
            }),
        ),
{
    let n = next_sequence_number(last_code);
    render_member_code(year, n)
}

} // verus!
