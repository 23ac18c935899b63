use vstd::prelude::*;

verus! {

/// Unicode `White_Space` characters, the ones `str::trim` removes.
pub open spec fn is_white_space(c: char) -> bool {
    let u = c as u32;
    ||| 0x09 <= u <= 0x0d
    ||| u == 0x20
    ||| u == 0x85
    ||| u == 0xa0
    ||| u == 0x1680
    ||| 0x2000 <= u <= 0x200a
    ||| u == 0x2028
    ||| u == 0x2029
    ||| u == 0x202f
    ||| u == 0x205f
    ||| u == 0x3000
}

/// `s` without its leading white space.
pub open spec fn trim_start_chars(s: Seq<char>) -> Seq<char>
    decreases s.len(),
{
    if s.len() > 0 && is_white_space(s[0]) {
        trim_start_chars(s.drop_first())
    } else {
        s
    }
}

/// `s` without its trailing white space.
pub open spec fn trim_end_chars(s: Seq<char>) -> Seq<char>
    decreases s.len(),
{
    if s.len() > 0 && is_white_space(s.last()) {
        trim_end_chars(s.drop_last())
    } else {
        s
    }
}

/// `s` without leading and trailing white space.
pub open spec fn trim_chars(s: Seq<char>) -> Seq<char> {
    trim_end_chars(trim_start_chars(s))
}

/// ASCII upper-case letters mapped to lower case, everything else unchanged.
pub open spec fn ascii_lower(c: char) -> char {
    if 65 <= c as u32 <= 90 {
        ((c as u32) + 32) as char
    } else {
        c
    }
}

/// `s` with every ASCII letter in lower case.
pub open spec fn lower_chars(s: Seq<char>) -> Seq<char> {
    s.map_values(|c: char| ascii_lower(c))
}

proof fn lemma_lower_trim_start(s: Seq<char>)
    ensures
        lower_chars(trim_start_chars(s)) == trim_start_chars(lower_chars(s)),
    decreases s.len(),
{
    if s.len() > 0 {
        assert(lower_chars(s)[0] == ascii_lower(s[0]));
        assert(lower_chars(s.drop_first()) =~= lower_chars(s).drop_first());
        if is_white_space(s[0]) {
            lemma_lower_trim_start(s.drop_first());
        }
    }
}

proof fn lemma_lower_trim_end(s: Seq<char>)
    ensures
        lower_chars(trim_end_chars(s)) == trim_end_chars(lower_chars(s)),
    decreases s.len(),
{
    if s.len() > 0 {
        assert(lower_chars(s).last() == ascii_lower(s.last()));
        assert(lower_chars(s.drop_last()) =~= lower_chars(s).drop_last());
        if is_white_space(s.last()) {
            lemma_lower_trim_end(s.drop_last());
        }
    }
}

/// Lowering ASCII letters and trimming white space can be done in either
/// order: no ASCII letter is white space.
pub proof fn lemma_lower_trim(s: Seq<char>)
    ensures
        lower_chars(trim_chars(s)) == trim_chars(lower_chars(s)),
{
    lemma_lower_trim_start(s);
    lemma_lower_trim_end(trim_start_chars(s));
}

/// True when `word` occurs in `s` as a contiguous run.
pub open spec fn contains_word(s: Seq<char>, word: Seq<char>) -> bool {
    exists|i: int| 0 <= i <= s.len() - word.len() && #[trigger] s.subrange(i, i + word.len()) == word
}

/// The characters of `s`, in order.
pub fn chars_of(s: &str) -> (v: Vec<char>)
    ensures
        v@ == s@,
{
    let n = s.unicode_len();
    let mut v: Vec<char> = Vec::new();
    let mut i: usize = 0;
    while i < n
        invariant
            n == s@.len(),
            i <= n,
            v@ == s@.subrange(0, i as int),
        decreases n - i,
    {
        v.push(s.get_char(i));
        i = i + 1;
    }
    assert(v@ =~= s@);
    v
}

/// Whether `v` holds exactly the characters of `word`.
pub fn same_chars(v: &[char], word: &str) -> (r: bool)
    ensures
        r == (v@ == word@),
{
    let n = word.unicode_len();
    if v.len() != n {
        return false;
    }
    let mut i: usize = 0;
    while i < n
        invariant
            n == word@.len(),
            n == v@.len(),
            i <= n,
            forall|j: int| 0 <= j < i ==> v@[j] == word@[j],
        decreases n - i,
    {
        if v[i] != word.get_char(i) {
            return false;
        }
        i = i + 1;
    }
    assert(v@ =~= word@);
    true
}

/// Whether `c` is a Unicode white-space character.
pub fn is_white_space_char(c: char) -> (r: bool)
    ensures
        r == is_white_space(c),
{
    let u = c as u32;
    (0x09 <= u && u <= 0x0d) || u == 0x20 || u == 0x85 || u == 0xa0 || u == 0x1680 || (0x2000 <= u
        && u <= 0x200a) || u == 0x2028 || u == 0x2029 || u == 0x202f || u == 0x205f || u == 0x3000
}

/// The ASCII lower-case form of `c`.
pub fn to_ascii_lower(c: char) -> (r: char)
    ensures
        r == ascii_lower(c),
{
    if 'A' <= c && c <= 'Z' {
        let b = c as u8;
        let r = (b + 32) as char;
        assert(r as u32 == (c as u32) + 32);
        r
    } else {
        c
    }
}

proof fn lemma_trim_start_from(s: Seq<char>, lo: int)
    requires
        0 <= lo < s.len(),
        is_white_space(s[lo]),
    ensures
        trim_start_chars(s.subrange(lo, s.len() as int)) == trim_start_chars(
            s.subrange(lo + 1, s.len() as int),
        ),
{
    assert(s.subrange(lo, s.len() as int).drop_first() =~= s.subrange(lo + 1, s.len() as int));
}

proof fn lemma_trim_end_to(s: Seq<char>, hi: int)
    requires
        0 < hi <= s.len(),
        is_white_space(s[hi - 1]),
    ensures
        trim_end_chars(s.subrange(0, hi)) == trim_end_chars(s.subrange(0, hi - 1)),
{
    assert(s.subrange(0, hi).drop_last() =~= s.subrange(0, hi - 1));
}

/// The characters of `s` without surrounding white space, in ASCII lower case.
pub fn trimmed_lower(s: &str) -> (v: Vec<char>)
    ensures
        v@ == lower_chars(trim_chars(s@)),
{
    let chars = chars_of(s);
    let n = chars.len();
    let mut lo: usize = 0;
    assert(chars@.subrange(0, n as int) =~= chars@);
    while lo < n && is_white_space_char(chars[lo])
        invariant
            n == chars@.len(),
            lo <= n,
            trim_start_chars(chars@) == trim_start_chars(chars@.subrange(lo as int, n as int)),
        decreases n - lo,
    {
        proof {
            lemma_trim_start_from(chars@, lo as int);
        }
        lo = lo + 1;
    }
    let ghost started = chars@.subrange(lo as int, n as int);
    assert(trim_start_chars(chars@) == started);
    let mut hi: usize = n;
    while hi > lo && is_white_space_char(chars[hi - 1])
        invariant
            n == chars@.len(),
            lo <= hi <= n,
            started == chars@.subrange(lo as int, n as int),
            trim_end_chars(started) == trim_end_chars(chars@.subrange(lo as int, hi as int)),
        decreases hi - lo,
    {
        proof {
            let t = chars@.subrange(lo as int, hi as int);
            lemma_trim_end_to(t, t.len() as int);
            assert(t.subrange(0, t.len() - 1) =~= chars@.subrange(lo as int, hi - 1));
            assert(t.subrange(0, t.len() as int) =~= t);
        }
        hi = hi - 1;
    }
    assert(trim_chars(s@) == chars@.subrange(lo as int, hi as int));
    let mut v: Vec<char> = Vec::new();
    let mut i: usize = lo;
    while i < hi
        invariant
            n == chars@.len(),
            lo <= i <= hi <= n,
            v@ == lower_chars(chars@.subrange(lo as int, i as int)),
        decreases hi - i,
    {
        v.push(to_ascii_lower(chars[i]));
        assert(lower_chars(chars@.subrange(lo as int, i + 1)) =~= lower_chars(
            chars@.subrange(lo as int, i as int),
        ).push(ascii_lower(chars@[i as int])));
        i = i + 1;
    }
    v
}

/// The characters of `s` with every ASCII letter in lower case.
pub fn lowered(s: &str) -> (v: Vec<char>)
    ensures
        v@ == lower_chars(s@),
{
    let chars = chars_of(s);
    let n = chars.len();
    let mut v: Vec<char> = Vec::new();
    let mut i: usize = 0;
    while i < n
        invariant
            n == chars@.len(),
            chars@ == s@,
            i <= n,
            v@ == lower_chars(chars@.subrange(0, i as int)),
        decreases n - i,
    {
        v.push(to_ascii_lower(chars[i]));
        assert(lower_chars(chars@.subrange(0, i + 1)) =~= lower_chars(chars@.subrange(0, i as int)).push(
            ascii_lower(chars@[i as int]),
        ));
        i = i + 1;
    }
    assert(chars@.subrange(0, n as int) =~= chars@);
    v
}

/// Whether `word` occurs in `v`.
pub fn has_word(v: &[char], word: &[char]) -> (r: bool)
    ensures
        r == contains_word(v@, word@),
{
    let n = v.len();
    let m = word.len();
    if m > n {
        return false;
    }
    let last = n - m;
    let mut i: usize = 0;
    loop
        invariant
            n == v@.len(),
            m == word@.len(),
            m <= n,
            last == n - m,
            i <= last,
            forall|k: int| 0 <= k < i ==> #[trigger] v@.subrange(k, k + m) != word@,
        ensures
            forall|k: int| 0 <= k <= last ==> #[trigger] v@.subrange(k, k + m) != word@,
        decreases last - i,
    {
        let mut j: usize = 0;
        let mut same = true;
        while j < m
            invariant
                n == v@.len(),
                m == word@.len(),
                i + m <= n,
                j <= m,
                same ==> forall|t: int| 0 <= t < j ==> v@[i + t] == word@[t],
                !same ==> v@.subrange(i as int, i + m) != word@,
            decreases m - j,
        {
            if v[i + j] != word[j] {
                same = false;
                assert(v@.subrange(i as int, i + m)[j as int] != word@[j as int]);
            }
            j = j + 1;
        }
        if same {
            assert(v@.subrange(i as int, i + m) =~= word@);
            return true;
        }
        if i == last {
            break;
        }
        i = i + 1;
    }
    assert forall|k: int| 0 <= k <= v@.len() - word@.len() implies #[trigger] v@.subrange(
        k,
        k + word@.len(),
    ) != word@ by {}
    false
}

/// Whether `c` is one of the ASCII digits `0` to `9`.
pub open spec fn is_digit(c: char) -> bool {
    48 <= c as u32 <= 57
}

/// The value of the ASCII digit `c`.
pub open spec fn digit_value(c: char) -> nat {
    (c as u32 - 48) as nat
}

/// The value of a run of decimal digits, most significant first.
pub open spec fn digits_value(s: Seq<char>) -> nat
    decreases s.len(),
{
    if s.len() == 0 {
        0
    } else {
        digits_value(s.drop_last()) * 10 + digit_value(s.last())
    }
}

/// `s` without one leading `+`.
pub open spec fn unsigned_part(s: Seq<char>) -> Seq<char> {
    if s.len() > 0 && s[0] == '+' {
        s.drop_first()
    } else {
        s
    }
}

/// Every character of `s` is a decimal digit.
pub open spec fn all_digits(s: Seq<char>) -> bool {
    forall|i: int| 0 <= i < s.len() ==> is_digit(#[trigger] s[i])
}

/// What `str::parse::<u64>` returns for `s`: an optional `+` followed by
/// at least one decimal digit, with a value that fits in a `u64`.
pub open spec fn parse_u64_chars(s: Seq<char>) -> Option<u64> {
    let d = unsigned_part(s);
    if d.len() > 0 && all_digits(d) && digits_value(d) <= u64::MAX {
        Some(digits_value(d) as u64)
    } else {
        None
    }
}

proof fn lemma_digits_value_prefix(s: Seq<char>, k: int)
    requires
        0 <= k <= s.len(),
        forall|i: int| 0 <= i < s.len() ==> is_digit(#[trigger] s[i]),
    ensures
        digits_value(s.subrange(0, k)) <= digits_value(s),
    decreases s.len(),
{
    if k < s.len() {
        lemma_digits_value_prefix(s.drop_last(), k);
        assert(s.drop_last().subrange(0, k) =~= s.subrange(0, k));
    } else {
        assert(s.subrange(0, k) =~= s);
    }
}

/// `s` read as an unsigned decimal number, as `str::parse::<u64>` reads it.
pub fn parse_u64(s: &str) -> (r: Option<u64>)
    ensures
        r == parse_u64_chars(s@),
{
    let v = chars_of(s);
    let n = v.len();
    let start: usize = if n > 0 && v[0] == '+' {
        1
    } else {
        0
    };
    let ghost d = unsigned_part(s@);
    assert(d =~= v@.subrange(start as int, n as int));
    if start == n {
        return None;
    }
    let mut acc: u64 = 0;
    let mut i: usize = start;
    while i < n
        invariant
            n == v@.len(),
            start <= i <= n,
            d == v@.subrange(start as int, n as int),
            d == unsigned_part(s@),
            forall|j: int| start <= j < i ==> is_digit(#[trigger] v@[j]),
            acc == digits_value(v@.subrange(start as int, i as int)),
        decreases n - i,
    {
        let c = v[i];
        let cu = c as u32;
        if !(48 <= cu && cu <= 57) {
            assert(d[i - start] == c);
            assert(!is_digit(d[i - start]));
            return None;
        }
        let digit = (cu - 48) as u64;
        assert(v@.subrange(start as int, i + 1).drop_last() =~= v@.subrange(start as int, i as int));
        assert(digits_value(v@.subrange(start as int, i + 1)) == acc * 10 + digit);
        match acc.checked_mul(10) {
            Some(m) => match m.checked_add(digit) {
                Some(next) => {
                    acc = next;
                },
                None => {
                    proof {
                        if all_digits(d) {
                            lemma_digits_value_prefix(d, i + 1 - start);
                            assert(d.subrange(0, i + 1 - start) =~= v@.subrange(start as int, i + 1));
                        }
                    }
                    return None;
                },
            },
            None => {
                proof {
                    if all_digits(d) {
                        lemma_digits_value_prefix(d, i + 1 - start);
                        assert(d.subrange(0, i + 1 - start) =~= v@.subrange(start as int, i + 1));
                    }
                }
                return None;
            },
        }
        i = i + 1;
    }
    assert(v@.subrange(start as int, n as int) == d);
    Some(acc)
}

} // verus!
