use vstd::prelude::*;
use vstd::utf8::{decode_utf8, encode_utf8, is_ascii_chars, is_char_boundary};

verus! {

/// `n` copies of `c`.
pub open spec fn repeat_char(c: char, n: nat) -> Seq<char> {
    Seq::new(n, |_i: int| c)
}

/// `n` spaces.
pub open spec fn spaces(n: nat) -> Seq<char> {
    repeat_char(' ', n)
}

/// The decimal digit for `d`, which is below ten.
pub open spec fn digit_char(d: nat) -> char {
    if d == 0 {
        '0'
    } else if d == 1 {
        '1'
    } else if d == 2 {
        '2'
    } else if d == 3 {
        '3'
    } else if d == 4 {
        '4'
    } else if d == 5 {
        '5'
    } else if d == 6 {
        '6'
    } else if d == 7 {
        '7'
    } else if d == 8 {
        '8'
    } else {
        '9'
    }
}

/// The decimal form of `n`, without leading zeros.
pub open spec fn decimal(n: nat) -> Seq<char>
    decreases n,
{
    if n < 10 {
        seq![digit_char(n)]
    } else {
        decimal(n / 10).push(digit_char(n % 10))
    }
}

/// The length of the UTF-8 form of `s` in bytes: what `str::len` returns.
pub open spec fn byte_len(s: Seq<char>) -> nat {
    encode_utf8(s).len()
}

/// A string has at least as many bytes as characters.
pub proof fn lemma_chars_le_bytes(s: Seq<char>)
    ensures
        s.len() <= byte_len(s),
    decreases s.len(),
{
    if s.len() > 0 {
        lemma_chars_le_bytes(s.drop_first());
    }
}

/// In an ASCII text every byte position is a character boundary.
pub proof fn lemma_ascii_cut(s: Seq<char>, i: int)
    requires
        is_ascii_chars(s),
        0 <= i <= s.len(),
    ensures
        is_char_boundary(encode_utf8(s), i),
        byte_len(s) == s.len(),
{
    broadcast use vstd::utf8::group_utf8_lib;

    vstd::utf8::is_ascii_chars_encode_utf8(s);
    let b = encode_utf8(s);
    if i < s.len() {
        assert(s[i] as u8 == b[i]);
        assert(!vstd::utf8::is_continuation_byte(b[i]));
    }
}

/// `10` to the power `k`.
pub open spec fn ten_pow(k: nat) -> nat
    decreases k,
{
    if k == 0 {
        1
    } else {
        10 * ten_pow((k - 1) as nat)
    }
}

/// A number below `10^k` has at most `k` decimal digits.
pub proof fn lemma_decimal_len(n: nat, k: nat)
    requires
        k >= 1,
        n < ten_pow(k),
    ensures
        decimal(n).len() <= k,
    decreases k,
{
    if n >= 10 {
        assert(k >= 2) by {
            if k == 1 {
                assert(ten_pow(1) == 10) by {
                    reveal_with_fuel(ten_pow, 2);
                }
            }
        }
        assert(n / 10 < ten_pow((k - 1) as nat));
        lemma_decimal_len(n / 10, (k - 1) as nat);
    }
}

proof fn lemma_ascii_piece_decode(text: Seq<char>, lo: int, hi: int)
    requires
        is_ascii_chars(text),
        0 <= lo <= hi <= text.len(),
    ensures
        decode_utf8(encode_utf8(text).subrange(lo, hi)) == text.subrange(lo, hi),
{
    broadcast use vstd::utf8::group_utf8_lib;

    let piece = text.subrange(lo, hi);
    assert(is_ascii_chars(piece));
    vstd::utf8::is_ascii_chars_encode_utf8(text);
    vstd::utf8::is_ascii_chars_encode_utf8(piece);
    assert(encode_utf8(text).subrange(lo, hi) =~= encode_utf8(piece)) by {
        assert forall|i: int| 0 <= i < hi - lo implies #[trigger] encode_utf8(text).subrange(lo, hi)[i]
            == encode_utf8(piece)[i] by {
            assert(piece[i] == text[lo + i]);
        }
    }
    assert(decode_utf8(encode_utf8(piece)) == piece);
}

/// Padding an ASCII text, on either side, gives exactly `width` characters.
pub proof fn lemma_padded_width(text: Seq<char>, width: nat)
    requires
        is_ascii_chars(text),
    ensures
        padded(text, width).len() == width,
        padded_left(text, width).len() == width,
{
    lemma_ascii_cut(text, 0);
    let b = encode_utf8(text);
    if b.len() >= width {
        lemma_ascii_piece_decode(text, 0, width as int);
        lemma_ascii_piece_decode(text, text.len() - width, text.len() as int);
    }
}

/// The centre rule across an ASCII label is exactly `width` characters.
pub proof fn lemma_center_rule_width(width: nat, label: Seq<char>)
    requires
        is_ascii_chars(label),
    ensures
        center_rule(width, label).len() == width,
{
    lemma_ascii_cut(label, 0);
    if width > 0 {
        let keep = center_label_bytes(label, width);
        lemma_ascii_piece_decode(label, 0, keep as int);
    }
}

/// Decimal numbers are ASCII.
pub proof fn lemma_decimal_ascii(n: nat)
    ensures
        is_ascii_chars(decimal(n)),
    decreases n,
{
    if n >= 10 {
        lemma_decimal_ascii(n / 10);
    }
}

/// Appends `n` copies of the one character of `piece` to `out`.
fn append_repeated(out: &mut String, piece: &str, n: usize)
    requires
        piece@.len() == 1,
    ensures
        final(out)@ == old(out)@ + repeat_char(piece@[0], n as nat),
{
    let mut i: usize = 0;
    while i < n
        invariant
            piece@.len() == 1,
            i <= n,
            out@ == old(out)@ + repeat_char(piece@[0], i as nat),
        decreases n - i,
    {
        out.append(piece);
        assert(old(out)@ + repeat_char(piece@[0], (i + 1) as nat) =~= old(out)@ + repeat_char(
            piece@[0],
            i as nat,
        ) + piece@);
        i = i + 1;
    }
}

/// The one-character string for the decimal digit `d`.
fn digit_str(d: u64) -> (r: &'static str)
    requires
        d < 10,
    ensures
        r@ == seq![digit_char(d as nat)],
{
    proof {
        reveal_strlit("0");
        reveal_strlit("1");
        reveal_strlit("2");
        reveal_strlit("3");
        reveal_strlit("4");
        reveal_strlit("5");
        reveal_strlit("6");
        reveal_strlit("7");
        reveal_strlit("8");
        reveal_strlit("9");
    }
    let r = if d == 0 {
        "0"
    } else if d == 1 {
        "1"
    } else if d == 2 {
        "2"
    } else if d == 3 {
        "3"
    } else if d == 4 {
        "4"
    } else if d == 5 {
        "5"
    } else if d == 6 {
        "6"
    } else if d == 7 {
        "7"
    } else if d == 8 {
        "8"
    } else {
        "9"
    };
    assert(r@ =~= seq![digit_char(d as nat)]);
    r
}

/// Appends the decimal form of `n` to `out`.
fn append_decimal(out: &mut String, n: u64)
    ensures
        final(out)@ == old(out)@ + decimal(n as nat),
    decreases n,
{
    if n < 10 {
        out.append(digit_str(n));
    } else {
        append_decimal(out, n / 10);
        out.append(digit_str(n % 10));
        assert(old(out)@ + decimal(n as nat) =~= old(out)@ + decimal((n / 10) as nat) + seq![
            digit_char((n % 10) as nat),
        ]);
    }
}

/// The decimal form of `n`, as `to_string` writes it.
pub fn decimal_string(n: u64) -> (r: String)
    ensures
        r@ == decimal(n as nat),
{
    let mut out = String::new();
    append_decimal(&mut out, n);
    assert(out@ =~= decimal(n as nat));
    out
}

/// `index` written with at least two digits, as `{:02}` writes it.
pub open spec fn two_digit_label(index: nat) -> Seq<char> {
    if index < 10 {
        seq!['0'] + decimal(index)
    } else {
        decimal(index)
    }
}

/// The label of a core: its index with at least two digits.
pub fn core_label(index: usize) -> (r: String)
    ensures
        r@ == two_digit_label(index as nat),
{
    let mut out = String::new();
    if index < 10 {
        out.append("0");
        proof {
            reveal_strlit("0");
        }
    }
    append_decimal(&mut out, index as u64);
    assert(out@ =~= two_digit_label(index as nat));
    out
}

/// The first `width` characters of `name`.
pub open spec fn trimmed_name(name: Seq<char>, width: nat) -> Seq<char> {
    if name.len() <= width {
        name
    } else {
        name.subrange(0, width as int)
    }
}

/// The first `width` characters of `name` (all of it when it is shorter).
pub fn trim_name(name: &str, width: usize) -> (r: String)
    ensures
        r@ == trimmed_name(name@, width as nat),
{
    if width == 0 {
        return String::new();
    }
    let n = name.unicode_len();
    let k = if n <= width {
        n
    } else {
        width
    };
    let part = name.substring_char(0, k);
    let r = String::from_str(part);
    assert(n <= width ==> name@.subrange(0, k as int) =~= name@);
    r
}

/// `text` cut or padded on the right to `width`: a text of `width` or more
/// bytes keeps its first `width` bytes, a shorter one gets spaces until it
/// has `width` characters.
pub open spec fn padded(text: Seq<char>, width: nat) -> Seq<char> {
    let b = encode_utf8(text);
    if b.len() >= width {
        decode_utf8(b.subrange(0, width as int))
    } else {
        text + spaces((width - text.len()) as nat)
    }
}

/// `text` cut or padded on the left to `width`: a text of `width` or more
/// bytes keeps its last `width` bytes, a shorter one is preceded by spaces
/// until it has `width` characters.
pub open spec fn padded_left(text: Seq<char>, width: nat) -> Seq<char> {
    let b = encode_utf8(text);
    if b.len() >= width {
        decode_utf8(b.subrange(b.len() - width, b.len() as int))
    } else {
        spaces((width - text.len()) as nat) + text
    }
}

/// Where `pad` cuts `text`, the cut falls between two characters.
pub open spec fn pad_cut_ok(text: Seq<char>, width: nat) -> bool {
    byte_len(text) >= width ==> is_char_boundary(encode_utf8(text), width as int)
}

/// Where `pad_left` cuts `text`, the cut falls between two characters.
pub open spec fn pad_left_cut_ok(text: Seq<char>, width: nat) -> bool {
    byte_len(text) >= width ==> is_char_boundary(encode_utf8(text), byte_len(text) - width)
}

/// `text` left-aligned in a column of `width`.
pub fn pad(text: &str, width: usize) -> (r: String)
    requires
        pad_cut_ok(text@, width as nat),
        byte_len(text@) <= usize::MAX,
    ensures
        r@ == padded(text@, width as nat),
{
    broadcast use vstd::utf8::group_utf8_lib;

    if text.len() >= width {
        let (head, _tail) = text.split_at(width);
        assert(decode_utf8(encode_utf8(head@)) == head@);
        String::from_str(head)
    } else {
        proof {
            lemma_chars_le_bytes(text@);
            reveal_strlit(" ");
        }
        let mut out = String::from_str(text);
        append_repeated(&mut out, " ", width - text.unicode_len());
        out
    }
}

/// `text` right-aligned in a column of `width`.
pub fn pad_left(text: &str, width: usize) -> (r: String)
    requires
        pad_left_cut_ok(text@, width as nat),
        byte_len(text@) <= usize::MAX,
    ensures
        r@ == padded_left(text@, width as nat),
{
    broadcast use vstd::utf8::group_utf8_lib;

    if text.len() >= width {
        let (_head, tail) = text.split_at(text.len() - width);
        assert(decode_utf8(encode_utf8(tail@)) == tail@);
        String::from_str(tail)
    } else {
        proof {
            lemma_chars_le_bytes(text@);
            reveal_strlit(" ");
        }
        let mut out = String::new();
        append_repeated(&mut out, " ", width - text.unicode_len());
        out.append(text);
        assert(out@ =~= spaces((width - text@.len()) as nat) + text@);
        out
    }
}

/// `2` to the power `k`.
pub open spec fn two_pow(k: nat) -> nat
    decreases k,
{
    if k == 0 {
        1
    } else {
        2 * two_pow((k - 1) as nat)
    }
}

/// `n / d` rounded to the nearest integer, halves to the even neighbour.
pub open spec fn round_half_even(n: nat, d: nat) -> nat {
    let q = n / d;
    let r = n % d;
    if 2 * r > d || (2 * r == d && q % 2 == 1) {
        q + 1
    } else {
        q
    }
}

/// The smallest shift at or above `k` (and below 64) that leaves `v` with
/// at most `bits` significant bits.
pub open spec fn significand_shift(v: nat, bits: nat, k: nat) -> nat
    decreases 64 - k,
{
    if k >= 64 || v / two_pow(k) < two_pow(bits) {
        k
    } else {
        significand_shift(v, bits, k + 1)
    }
}

/// The integer `v` rounded to the nearest `f64` (ties to even), as
/// `v as f64` does.
pub open spec fn nearest_f64(v: nat) -> nat {
    let p = two_pow(significand_shift(v, 53, 0));
    round_half_even(v, p) * p
}

/// How the process panel writes a memory size of `bytes`: whole MiB below
/// one GiB, GiB with one decimal from there on. The size is first converted
/// to an `f64`, and the text is rounded as `{:.0}` and `{:.1}` round.
pub open spec fn memory_text(bytes: nat) -> Seq<char> {
    let r = nearest_f64(bytes);
    if r < two_pow(30) {
        decimal(round_half_even(r, two_pow(20))) + " MiB"@
    } else {
        let tenths = round_half_even(r * 10, two_pow(30));
        decimal(tenths / 10) + "."@ + seq![digit_char(tenths % 10)] + " GiB"@
    }
}

pub(crate) proof fn lemma_two_pow_small()
    ensures
        two_pow(20) == 0x10_0000,
        two_pow(24) == 0x100_0000,
        two_pow(30) == 0x4000_0000,
        two_pow(53) == 0x20_0000_0000_0000,
{
    reveal_with_fuel(two_pow, 54);
}

pub(crate) fn round_half_even_u128(n: u128, d: u128) -> (r: u128)
    requires
        d > 0,
        n / d < u128::MAX,
    ensures
        r == round_half_even(n as nat, d as nat),
{
    let q = n / d;
    let rem = n % d;
    if rem > d - rem || (rem == d - rem && q % 2 == 1) {
        q + 1
    } else {
        q
    }
}

fn nearest_f64_exec(v: u64) -> (r: u128)
    ensures
        r == nearest_f64(v as nat),
        r <= 0x4_0000_0000_0000_0000,
{
    proof {
        lemma_two_pow_small();
    }
    let mut k: u64 = 0;
    let mut p: u128 = 1;
    while k < 64 && (v as u128) / p >= 0x20_0000_0000_0000
        invariant
            k <= 64,
            p == two_pow(k as nat),
            1 <= p <= 0x1000,
            two_pow(53) == 0x20_0000_0000_0000,
            significand_shift(v as nat, 53, 0) == significand_shift(v as nat, 53, k as nat),
        decreases 64 - k,
    {
        assert(p < 0x800) by (nonlinear_arith)
            requires
                (v as u128) / p >= 0x20_0000_0000_0000,
                v <= u64::MAX,
                p >= 1,
        {
            if p >= 0x800 {
                assert((v as u128) / p <= (v as u128) / 0x800) by {
                    vstd::arithmetic::div_mod::lemma_div_is_ordered_by_denominator(v as int, 0x800, p as int);
                }
            }
        }
        k = k + 1;
        p = p * 2;
    }
    let q = (v as u128) / p;
    let rounded = round_half_even_u128(v as u128, p);
    assert(rounded <= q + 1);
    assert(q * p <= v) by (nonlinear_arith)
        requires
            q == (v as u128) / p,
            p >= 1,
    {
        vstd::arithmetic::div_mod::lemma_fundamental_div_mod(v as int, p as int);
    }
    assert(rounded * p <= q * p + p) by (nonlinear_arith)
        requires
            rounded <= q + 1,
            p >= 1,
    {}
    rounded * p
}

/// The memory size `bytes` as the process panel writes it.
pub fn format_mem(bytes: u64) -> (r: String)
    ensures
        r@ == memory_text(bytes as nat),
        is_ascii_chars(r@),
        r@.len() <= 20,
{
    proof {
        lemma_two_pow_small();
    }
    let value = nearest_f64_exec(bytes);
    proof {
        lemma_memory_text_ascii(bytes as nat);
    }
    let mut out = String::new();
    if value < 0x4000_0000 {
        let mib = round_half_even_u128(value, 0x10_0000);
        assert(mib <= 0x400);
        append_decimal(&mut out, mib as u64);
        out.append(" MiB");
    } else {
        let tenths = round_half_even_u128(value * 10, 0x4000_0000);
        assert(tenths <= 0x100_0000_0000);
        append_decimal(&mut out, (tenths / 10) as u64);
        out.append(".");
        out.append(digit_str((tenths % 10) as u64));
        out.append(" GiB");
    }
    assert(out@ =~= memory_text(bytes as nat));
    out
}

/// Memory sizes are written in ASCII, in at most 20 characters.
pub proof fn lemma_memory_text_ascii(bytes: nat)
    requires
        nearest_f64(bytes) <= 0x4_0000_0000_0000_0000,
    ensures
        is_ascii_chars(memory_text(bytes)),
        memory_text(bytes).len() <= 20,
{
    broadcast use vstd::utf8::group_utf8_lib;

    reveal_strlit(" MiB");
    reveal_strlit(" GiB");
    reveal_strlit(".");
    lemma_two_pow_small();
    let r = nearest_f64(bytes);
    if r < two_pow(30) {
        let m = round_half_even(r, two_pow(20));
        lemma_decimal_ascii(m);
        assert(m <= 1024);
        assert(m < ten_pow(4)) by {
            reveal_with_fuel(ten_pow, 5);
        }
        lemma_decimal_len(m, 4);
        assert(is_ascii_chars(decimal(m) + " MiB"@));
    } else {
        let tenths = round_half_even(r * 10, two_pow(30));
        assert((r * 10) / 0x4000_0000 <= (0x4_0000_0000_0000_0000 * 10) / 0x4000_0000) by {
            vstd::arithmetic::div_mod::lemma_div_is_ordered((r * 10) as int, 0x28_0000_0000_0000_0000int, 0x4000_0000int);
        }
        assert(tenths / 10 < ten_pow(11)) by {
            reveal_with_fuel(ten_pow, 12);
        }
        lemma_decimal_ascii(tenths / 10);
        lemma_decimal_len(tenths / 10, 11);
        let s1 = decimal(tenths / 10) + "."@;
        assert(is_ascii_chars(s1));
        let s2 = s1 + seq![digit_char(tenths % 10)];
        assert(is_ascii_chars(s2));
        assert(is_ascii_chars(s2 + " GiB"@));
    }
}

/// `n` copies of the horizontal rule character.
pub open spec fn rule(n: nat) -> Seq<char> {
    repeat_char('\u{2500}', n)
}

/// How many bytes of `label` the center rule keeps for a width of `width`.
pub open spec fn center_label_bytes(label: Seq<char>, width: nat) -> nat {
    if byte_len(label) + 2 > width {
        if width >= 2 {
            (width - 2) as nat
        } else {
            0
        }
    } else {
        byte_len(label)
    }
}

/// The line across the middle of the CPU graph: `label` (cut to leave two
/// cells when too long, counting bytes) centred between rule characters
/// that fill `width` cells.
pub open spec fn center_rule(width: nat, label: Seq<char>) -> Seq<char> {
    if width == 0 {
        Seq::empty()
    } else {
        let keep = center_label_bytes(label, width);
        let shown = decode_utf8(encode_utf8(label).subrange(0, keep as int));
        let side = ((width - keep) as nat) / 2;
        rule(side) + shown + rule((width - (side + keep)) as nat)
    }
}

/// Where `make_center_rule` cuts `label`, the cut falls between two characters.
pub open spec fn center_cut_ok(width: nat, label: Seq<char>) -> bool {
    is_char_boundary(encode_utf8(label), center_label_bytes(label, width) as int)
}

/// The rule across the middle of the CPU graph, with `label` centred in it.
pub fn make_center_rule(width: usize, label: &str) -> (r: String)
    requires
        width > 0 ==> center_cut_ok(width as nat, label@),
        byte_len(label@) <= usize::MAX,
    ensures
        r@ == center_rule(width as nat, label@),
{
    broadcast use vstd::utf8::group_utf8_lib;

    if width == 0 {
        return String::new();
    }
    let len = label.len();
    let shown = if width < 2 || len > width - 2 {
        let keep = if width >= 2 {
            width - 2
        } else {
            0
        };
        let (head, _tail) = label.split_at(keep);
        head
    } else {
        assert(encode_utf8(label@).subrange(0, len as int) =~= encode_utf8(label@));
        label
    };
    let keep = shown.len();
    assert(keep == center_label_bytes(label@, width as nat));
    assert(shown@ == decode_utf8(encode_utf8(label@).subrange(0, keep as int))) by {
        assert(decode_utf8(encode_utf8(shown@)) == shown@);
    }
    let side = (width - keep) / 2;
    proof {
        reveal_strlit("\u{2500}");
    }
    let mut out = String::new();
    append_repeated(&mut out, "\u{2500}", side);
    out.append(shown);
    append_repeated(&mut out, "\u{2500}", width - (side + keep));
    assert(out@ =~= center_rule(width as nat, label@));
    out
}

} // verus!
