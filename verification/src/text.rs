//! Character-level scanning shared by the reader: whitespace, comment
//! stripping, trimming, token splitting and decimal numerals.

use vstd::prelude::*;

verus! {

/// A character with the Unicode `White_Space` property, written out in full
/// so that trimming and token splitting are completely specified.
pub open spec fn is_space_char(c: char) -> bool {
    let n = c as u32;
    ||| n == 32
    ||| (9 <= n && n <= 13)
    ||| n == 0x85
    ||| n == 0xA0
    ||| n == 0x1680
    ||| (0x2000 <= n && n <= 0x200A)
    ||| n == 0x2028
    ||| n == 0x2029
    ||| n == 0x202F
    ||| n == 0x205F
    ||| n == 0x3000
}

/// Decides `is_space_char`.
pub fn is_space(c: char) -> (r: bool)
    ensures
        r == is_space_char(c),
{
    let n = c as u32;
    n == 32 || (9 <= n && n <= 13) || n == 0x85 || n == 0xA0 || n == 0x1680 || (0x2000 <= n && n
        <= 0x200A) || n == 0x2028 || n == 0x2029 || n == 0x202F || n == 0x205F || n == 0x3000
}

/// Decides equality of the character sequences of two string slices.
pub fn str_eq(a: &str, b: &str) -> (r: bool)
    ensures
        r == (a@ == b@),
{
    let alen = a.unicode_len();
    let blen = b.unicode_len();
    if alen != blen {
        return false;
    }
    let mut i: usize = 0;
    while i < alen
        invariant
            i <= alen,
            alen == a@.len(),
            alen == b@.len(),
            forall|j: int| 0 <= j < i ==> a@[j] == b@[j],
        decreases alen - i,
    {
        if a.get_char(i) != b.get_char(i) {
            return false;
        }
        i = i + 1;
    }
    proof {
        assert(a@ =~= b@);
    }
    true
}

/// Holds when a comment marker `//` begins at position `j` of `l`.
pub open spec fn comment_at(l: Seq<char>, j: int) -> bool {
    0 <= j && j + 1 < l.len() && l[j] == '/' && l[j + 1] == '/'
}

/// Everything of `l` before its first comment marker.
pub open spec fn strip_comment(l: Seq<char>) -> Seq<char>
    decreases l.len(),
{
    if l.len() >= 2 && l[0] == '/' && l[1] == '/' {
        Seq::empty()
    } else if l.len() == 0 {
        l
    } else {
        seq![l[0]] + strip_comment(l.subrange(1, l.len() as int))
    }
}

/// `l` without its leading whitespace.
pub open spec fn trim_start(l: Seq<char>) -> Seq<char>
    decreases l.len(),
{
    if l.len() > 0 && is_space_char(l[0]) {
        trim_start(l.subrange(1, l.len() as int))
    } else {
        l
    }
}

/// `l` without its trailing whitespace.
pub open spec fn trim_end(l: Seq<char>) -> Seq<char>
    decreases l.len(),
{
    if l.len() > 0 && is_space_char(l[l.len() - 1]) {
        trim_end(l.subrange(0, l.len() - 1))
    } else {
        l
    }
}

/// A source line after comment stripping and trimming: the text a command
/// is classified from, or empty for a line the reader skips.
pub open spec fn clean_line(l: Seq<char>) -> Seq<char> {
    trim_end(trim_start(strip_comment(l)))
}

proof fn lemma_strip_comment_prefix(l: Seq<char>, e: int)
    requires
        0 <= e <= l.len(),
        forall|j: int| 0 <= j < e ==> !comment_at(l, j),
        e == l.len() || comment_at(l, e),
    ensures
        strip_comment(l) == l.subrange(0, e),
    decreases l.len(),
{
    if l.len() >= 2 && l[0] == '/' && l[1] == '/' {
        assert(comment_at(l, 0));
        assert(e == 0);
        assert(l.subrange(0, 0) =~= Seq::<char>::empty());
    } else if l.len() == 0 {
        assert(l.subrange(0, 0) =~= l);
    } else {
        assert(!comment_at(l, 0));
        assert(e >= 1) by {
            if e == 0 {
                assert(e != l.len());
            }
        }
        let t = l.subrange(1, l.len() as int);
        assert(forall|j: int| 0 <= j < e - 1 ==> !comment_at(t, j)) by {
            assert(forall|j: int| 0 <= j < e - 1 && comment_at(t, j) ==> comment_at(l, j + 1));
        }
        assert(e - 1 == t.len() || comment_at(t, e - 1)) by {
            if e < l.len() {
                assert(comment_at(l, e));
                assert(t[e - 1] == l[e]);
                assert(t[e] == l[e + 1]);
            }
        }
        lemma_strip_comment_prefix(t, e - 1);
        assert(seq![l[0]] + t.subrange(0, e - 1) =~= l.subrange(0, e));
    }
}

proof fn lemma_trim_start_at(l: Seq<char>, s: int)
    requires
        0 <= s <= l.len(),
        forall|j: int| 0 <= j < s ==> is_space_char(l[j]),
        s == l.len() || !is_space_char(l[s]),
    ensures
        trim_start(l) == l.subrange(s, l.len() as int),
    decreases l.len(),
{
    if s == 0 {
        if l.len() > 0 && is_space_char(l[0]) {
            assert(false);
        }
        assert(l.subrange(0, l.len() as int) =~= l);
    } else {
        assert(is_space_char(l[0]));
        let t = l.subrange(1, l.len() as int);
        lemma_trim_start_at(t, s - 1);
        assert(t.subrange(s - 1, t.len() as int) =~= l.subrange(s, l.len() as int));
    }
}

proof fn lemma_trim_end_at(l: Seq<char>, e: int)
    requires
        0 <= e <= l.len(),
        forall|j: int| e <= j < l.len() ==> is_space_char(l[j]),
        e == 0 || !is_space_char(l[e - 1]),
    ensures
        trim_end(l) == l.subrange(0, e),
    decreases l.len(),
{
    if e == l.len() {
        if l.len() > 0 && is_space_char(l[l.len() - 1]) {
            assert(false);
        }
        assert(l.subrange(0, l.len() as int) =~= l);
    } else {
        assert(is_space_char(l[l.len() - 1]));
        let t = l.subrange(0, l.len() - 1);
        lemma_trim_end_at(t, e);
    }
}

/// Index of the first comment marker of `s`, or its length if it has none.
fn find_comment(s: &str) -> (r: usize)
    ensures
        0 <= r <= s@.len(),
        forall|j: int| 0 <= j < r ==> !comment_at(s@, j),
        r == s@.len() || comment_at(s@, r as int),
{
    let len = s.unicode_len();
    if len == 0 {
        return 0;
    }
    let mut i: usize = 0;
    while i < len - 1
        invariant
            0 <= i <= len,
            len >= 1,
            len == s@.len(),
            forall|j: int| 0 <= j < i ==> !comment_at(s@, j),
        decreases len - i,
    {
        if s.get_char(i) == '/' && s.get_char(i + 1) == '/' {
            return i;
        }
        i = i + 1;
    }
    proof {
        assert forall|j: int| 0 <= j < s@.len() implies !comment_at(s@, j) by {
            if j >= i {
                assert(j + 1 >= s@.len());
            }
        }
    }
    len
}

/// Index of the first non-whitespace character of `s` in `[lo, hi)`, or `hi`.
fn first_non_space(s: &str, lo: usize, hi: usize) -> (r: usize)
    requires
        lo <= hi <= s@.len(),
    ensures
        lo <= r <= hi,
        forall|j: int| lo <= j < r ==> is_space_char(s@[j]),
        r == hi || !is_space_char(s@[r as int]),
{
    let mut i: usize = lo;
    while i < hi
        invariant
            lo <= i <= hi,
            hi <= s@.len(),
            forall|j: int| lo <= j < i ==> is_space_char(s@[j]),
        decreases hi - i,
    {
        if !is_space(s.get_char(i)) {
            return i;
        }
        i = i + 1;
    }
    hi
}

/// One past the last non-whitespace character of `s` in `[lo, hi)`, or `lo`.
fn last_non_space(s: &str, lo: usize, hi: usize) -> (r: usize)
    requires
        lo <= hi <= s@.len(),
    ensures
        lo <= r <= hi,
        forall|j: int| r <= j < hi ==> is_space_char(s@[j]),
        r == lo || !is_space_char(s@[r - 1]),
{
    let mut i: usize = hi;
    while i > lo
        invariant
            lo <= i <= hi,
            hi <= s@.len(),
            forall|j: int| i <= j < hi ==> is_space_char(s@[j]),
        decreases i,
    {
        if !is_space(s.get_char(i - 1)) {
            return i;
        }
        i = i - 1;
    }
    lo
}

/// Computes `clean_line` of a source line: strips everything from the first
/// comment marker onward and trims surrounding whitespace.
pub fn clean_of_line(line: &str) -> (r: String)
    ensures
        r@ == clean_line(line@),
{
    let ce = find_comment(line);
    let cs = first_non_space(line, 0, ce);
    let e0 = last_non_space(line, cs, ce);
    let out = line.substring_char(cs, e0).to_owned();
    proof {
        let l = line@;
        lemma_strip_comment_prefix(l, ce as int);
        let st = l.subrange(0, ce as int);
        lemma_trim_start_at(st, cs as int);
        let ts = st.subrange(cs as int, st.len() as int);
        assert(ts =~= l.subrange(cs as int, ce as int));
        lemma_trim_end_at(ts, e0 - cs);
        assert(ts.subrange(0, e0 - cs) =~= l.subrange(cs as int, e0 as int));
    }
    out
}

/// Length of the maximal non-whitespace run at the front of `l`.
pub open spec fn token_len(l: Seq<char>) -> nat
    decreases l.len(),
{
    if l.len() > 0 && !is_space_char(l[0]) {
        1 + token_len(l.subrange(1, l.len() as int))
    } else {
        0
    }
}

pub proof fn lemma_token_len_le(l: Seq<char>)
    ensures
        token_len(l) <= l.len(),
    decreases l.len(),
{
    if l.len() > 0 && !is_space_char(l[0]) {
        lemma_token_len_le(l.subrange(1, l.len() as int));
    }
}

/// The whitespace-delimited tokens of `l`, in order: the maximal
/// non-whitespace runs.
pub open spec fn split_tokens(l: Seq<char>) -> Seq<Seq<char>>
    decreases l.len(),
    via split_tokens_dec
{
    if l.len() == 0 {
        Seq::empty()
    } else if is_space_char(l[0]) {
        split_tokens(l.subrange(1, l.len() as int))
    } else {
        seq![l.subrange(0, token_len(l) as int)] + split_tokens(
            l.subrange(token_len(l) as int, l.len() as int),
        )
    }
}

#[via_fn]
proof fn split_tokens_dec(l: Seq<char>) {
    lemma_token_len_le(l);
}

proof fn lemma_token_len_run(l: Seq<char>, k: int)
    requires
        0 <= k <= l.len(),
        forall|j: int| 0 <= j < k ==> !is_space_char(l[j]),
        k == l.len() || is_space_char(l[k]),
    ensures
        token_len(l) == k,
    decreases l.len(),
{
    if l.len() > 0 && !is_space_char(l[0]) {
        assert(k >= 1);
        let t = l.subrange(1, l.len() as int);
        lemma_token_len_run(t, k - 1);
    }
}

/// The leading token really is the maximal whitespace-free prefix.
pub proof fn lemma_token_len_chars(l: Seq<char>)
    ensures
        token_len(l) <= l.len(),
        forall|k: int| 0 <= k < token_len(l) ==> !is_space_char(l[k]),
        token_len(l) == l.len() || is_space_char(l[token_len(l) as int]),
    decreases l.len(),
{
    lemma_token_len_le(l);
    if l.len() > 0 && !is_space_char(l[0]) {
        let t = l.subrange(1, l.len() as int);
        lemma_token_len_chars(t);
        assert forall|k: int| 0 <= k < token_len(l) implies !is_space_char(l[k]) by {
            if k > 0 {
                assert(t[k - 1] == l[k]);
            }
        }
        if token_len(l) < l.len() {
            assert(t[token_len(t) as int] == l[token_len(l) as int]);
        }
    }
}

/// One past the last character of the non-whitespace run starting at `lo`.
fn scan_token_end(s: &str, lo: usize) -> (r: usize)
    requires
        lo <= s@.len(),
    ensures
        lo <= r <= s@.len(),
        forall|j: int| lo <= j < r ==> !is_space_char(s@[j]),
        r == s@.len() || is_space_char(s@[r as int]),
{
    let len = s.unicode_len();
    let mut i: usize = lo;
    while i < len
        invariant
            lo <= i <= len,
            len == s@.len(),
            forall|j: int| lo <= j < i ==> !is_space_char(s@[j]),
        decreases len - i,
    {
        if is_space(s.get_char(i)) {
            return i;
        }
        i = i + 1;
    }
    len
}

/// The view of each string of `v`, in order.
pub open spec fn views_of(v: Seq<String>) -> Seq<Seq<char>> {
    v.map_values(|t: String| t@)
}

/// Splits `s` into its whitespace-delimited tokens.
pub fn split_ws(s: &str) -> (r: Vec<String>)
    ensures
        views_of(r@) == split_tokens(s@),
{
    let len = s.unicode_len();
    let mut out: Vec<String> = Vec::new();
    let mut i: usize = 0;
    proof {
        assert(s@.subrange(0, len as int) =~= s@);
        assert(views_of(out@) =~= Seq::<Seq<char>>::empty());
        assert(Seq::<Seq<char>>::empty() + split_tokens(s@) =~= split_tokens(s@));
    }
    while i < len
        invariant
            i <= len,
            len == s@.len(),
            split_tokens(s@) == views_of(out@) + split_tokens(
                s@.subrange(i as int, len as int),
            ),
        decreases len - i,
    {
        let ghost rest = s@.subrange(i as int, len as int);
        if is_space(s.get_char(i)) {
            proof {
                assert(rest[0] == s@[i as int]);
                assert(rest.subrange(1, rest.len() as int) =~= s@.subrange(
                    i + 1,
                    len as int,
                ));
            }
            i = i + 1;
        } else {
            let j = scan_token_end(s, i);
            assert(j > i);
            let tok = s.substring_char(i, j).to_owned();
            proof {
                assert(forall|k: int| 0 <= k < j - i ==> rest[k] == s@[i + k]);
                lemma_token_len_run(rest, j - i);
                assert(rest.subrange(0, (j - i) as int) =~= s@.subrange(i as int, j as int));
                assert(rest.subrange((j - i) as int, rest.len() as int) =~= s@.subrange(
                    j as int,
                    len as int,
                ));
                assert(views_of(out@.push(tok)) =~= views_of(out@).push(tok@));
                assert(views_of(out@.push(tok)) + split_tokens(s@.subrange(j as int, len as int))
                    =~= views_of(out@) + split_tokens(rest));
            }
            out.push(tok);
            i = j;
        }
    }
    proof {
        assert(split_tokens(s@.subrange(len as int, len as int)) =~= Seq::<Seq<char>>::empty());
        assert(views_of(out@) + Seq::<Seq<char>>::empty() =~= views_of(out@));
    }
    out
}

pub proof fn lemma_trim_start_head(l: Seq<char>)
    ensures
        trim_start(l).len() > 0 ==> !is_space_char(trim_start(l)[0]),
    decreases l.len(),
{
    if l.len() > 0 && is_space_char(l[0]) {
        lemma_trim_start_head(l.subrange(1, l.len() as int));
    }
}

pub proof fn lemma_trim_end_head(l: Seq<char>)
    ensures
        trim_end(l).len() > 0 ==> trim_end(l)[0] == l[0],
    decreases l.len(),
{
    if l.len() > 0 && is_space_char(l[l.len() - 1]) {
        lemma_trim_end_head(l.subrange(0, l.len() - 1));
    }
}

/// A non-empty cleaned line starts with a non-whitespace character.
pub proof fn lemma_clean_head(l: Seq<char>)
    ensures
        clean_line(l).len() > 0 ==> !is_space_char(clean_line(l)[0]),
{
    lemma_trim_start_head(strip_comment(l));
    lemma_trim_end_head(trim_start(strip_comment(l)));
}

/// A sequence starting with a non-whitespace character has a first token.
pub proof fn lemma_first_token(l: Seq<char>)
    requires
        l.len() > 0,
        !is_space_char(l[0]),
    ensures
        split_tokens(l).len() >= 1,
        split_tokens(l)[0] == l.subrange(0, token_len(l) as int),
{
}

/// Extracts the first whitespace-delimited token of `s`.
pub fn first_token(s: &str) -> (r: String)
    requires
        s@.len() > 0,
        !is_space_char(s@[0]),
    ensures
        r@ == split_tokens(s@)[0],
{
    let j = scan_token_end(s, 0);
    proof {
        lemma_token_len_run(s@, j as int);
        lemma_first_token(s@);
    }
    s.substring_char(0, j).to_owned()
}

/// Holds when `c` is a decimal digit.
pub open spec fn is_digit_char(c: char) -> bool {
    48 <= c as u32 && c as u32 <= 57
}

/// Numeric value of a decimal digit character.
pub open spec fn digit_val(c: char) -> int {
    c as u32 - 48
}

/// Value of a sequence of decimal digit characters, most significant first.
pub open spec fn digits_val(s: Seq<char>) -> int
    decreases s.len(),
{
    if s.len() == 0 {
        0
    } else {
        digits_val(s.drop_last()) * 10 + digit_val(s.last())
    }
}

pub open spec fn all_digits(s: Seq<char>) -> bool {
    forall|i: int| 0 <= i < s.len() ==> is_digit_char(s[i])
}

/// The integer a token denotes: an optional sign followed by one or more
/// decimal digits; `None` for anything else.
pub open spec fn spec_parse_int(s: Seq<char>) -> Option<int> {
    let signed = s.len() > 0 && (s[0] == '+' || s[0] == '-');
    let neg = s.len() > 0 && s[0] == '-';
    let ds = if signed {
        s.subrange(1, s.len() as int)
    } else {
        s
    };
    if ds.len() > 0 && all_digits(ds) {
        Some(
            if neg {
                -digits_val(ds)
            } else {
                digits_val(ds)
            },
        )
    } else {
        None
    }
}

/// `spec_parse_int` restricted to values representable in 32 bits.
pub open spec fn spec_parse_i32(s: Seq<char>) -> Option<int> {
    match spec_parse_int(s) {
        Some(v) => if -0x8000_0000 <= v && v <= 0x7fff_ffff {
            Some(v)
        } else {
            None
        },
        None => None,
    }
}

proof fn lemma_digits_val_nonneg(s: Seq<char>)
    requires
        all_digits(s),
    ensures
        digits_val(s) >= 0,
    decreases s.len(),
{
    if s.len() > 0 {
        lemma_digits_val_nonneg(s.drop_last());
    }
}

/// Parses a token exactly as a 32-bit signed decimal integer.
pub fn parse_i32(s: &str) -> (r: Option<i32>)
    ensures
        match r {
            Some(x) => spec_parse_i32(s@) == Some(x as int),
            None => spec_parse_i32(s@) is None,
        },
{
    let len = s.unicode_len();
    let mut start: usize = 0;
    let mut neg = false;
    if len > 0 {
        let c0 = s.get_char(0);
        if c0 == '-' {
            neg = true;
            start = 1;
        } else if c0 == '+' {
            start = 1;
        }
    }
    if start >= len {
        return None;
    }
    let ghost ds = if start == 1 {
        s@.subrange(1, len as int)
    } else {
        s@
    };
    proof {
        assert(ds =~= s@.subrange(start as int, len as int));
    }
    let mut acc: u64 = 0;
    let mut over = false;
    let mut i: usize = start;
    while i < len
        invariant
            start <= i <= len,
            start <= 1,
            start < len,
            len == s@.len(),
            (start == 1) == (s@.len() > 0 && (s@[0] == '+' || s@[0] == '-')),
            neg == (s@.len() > 0 && s@[0] == '-'),
            ds == s@.subrange(start as int, len as int),
            forall|j: int| start <= j < i ==> is_digit_char(s@[j]),
            !over ==> acc as int == digits_val(s@.subrange(start as int, i as int)) && acc
                <= 0x8000_0000,
            over ==> digits_val(s@.subrange(start as int, i as int)) > 0x8000_0000,
        decreases len - i,
    {
        let c = s.get_char(i);
        let n = c as u32;
        if n < 48 || n > 57 {
            proof {
                assert(s@.subrange(0, len as int) =~= s@);
                assert(ds[i - start] == s@[i as int]);
                assert(!all_digits(ds));
            }
            return None;
        }
        let d: u64 = (n - 48) as u64;
        let ghost before = s@.subrange(start as int, i as int);
        let ghost after = s@.subrange(start as int, i + 1);
        proof {
            assert(after.drop_last() =~= before);
            assert(after.last() == s@[i as int]);
            assert(digits_val(after) == digits_val(before) * 10 + d);
        }
        if !over {
            acc = acc * 10 + d;
            if acc > 0x8000_0000 {
                over = true;
            }
        } else {
            proof {
                assert(digits_val(before) * 10 > 0x8000_0000) by {
                    assert(digits_val(before) * 10 >= digits_val(before));
                }
            }
        }
        i = i + 1;
    }
    proof {
        assert(s@.subrange(0, len as int) =~= s@);
        assert(forall|k: int| 0 <= k < ds.len() ==> ds[k] == s@[start + k]);
        assert(all_digits(ds));
        lemma_digits_val_nonneg(ds);
    }
    if over {
        return None;
    }
    if neg {
        if acc == 0x8000_0000 {
            Some(i32::MIN)
        } else {
            Some(-(acc as i32))
        }
    } else {
        if acc >= 0x8000_0000 {
            None
        } else {
            Some(acc as i32)
        }
    }
}

/// Digit character of a value below ten.
pub open spec fn dec_digit_char(d: int) -> char {
    if d == 0 {
        '0'
    } else if d == 1 {
        '1'
    } else if d == 2 {
        '2'
    } else if d == 3 {
        '3'
    } else if d == 4 {
        '4'
    } else if d == 5 {
        '5'
    } else if d == 6 {
        '6'
    } else if d == 7 {
        '7'
    } else if d == 8 {
        '8'
    } else {
        '9'
    }
}

/// Decimal numeral of `n`, most significant digit first, no leading zeros.
pub open spec fn dec_str(n: nat) -> Seq<char>
    decreases n,
    via dec_str_dec
{
    if n < 10 {
        seq![dec_digit_char(n as int)]
    } else {
        dec_str(n / 10) + seq![dec_digit_char((n % 10) as int)]
    }
}

#[via_fn]
proof fn dec_str_dec(n: nat) {
    if n >= 10 {
        assert(n / 10 < n) by (nonlinear_arith)
            requires
                n >= 10,
        ;
    }
}

pub proof fn lemma_dec_str_len(n: nat)
    ensures
        dec_str(n).len() >= 1,
    decreases n,
{
    if n >= 10 {
        assert(n / 10 < n) by (nonlinear_arith)
            requires
                n >= 10,
        ;
        lemma_dec_str_len(n / 10);
    }
}

pub proof fn lemma_dec_str_digits(n: nat)
    ensures
        all_digits(dec_str(n)),
    decreases n,
{
    if n < 10 {
        assert(is_digit_char(dec_digit_char(n as int)));
    } else {
        assert(n / 10 < n) by (nonlinear_arith)
            requires
                n >= 10,
        ;
        lemma_dec_str_digits(n / 10);
        assert(is_digit_char(dec_digit_char((n % 10) as int)));
        let s = dec_str(n);
        assert forall|i: int| 0 <= i < s.len() implies is_digit_char(s[i]) by {
            if i < dec_str(n / 10).len() {
                assert(s[i] == dec_str(n / 10)[i]);
            }
        }
    }
}

proof fn lemma_dec_digit_char_inj(a: int, b: int)
    requires
        0 <= a < 10,
        0 <= b < 10,
        dec_digit_char(a) == dec_digit_char(b),
    ensures
        a == b,
{
}

/// Distinct values have distinct decimal numerals.
pub proof fn lemma_dec_str_injective(a: nat, b: nat)
    requires
        dec_str(a) == dec_str(b),
    ensures
        a == b,
    decreases a,
{
    if a < 10 && b < 10 {
        assert(dec_str(a)[0] == dec_digit_char(a as int));
        assert(dec_str(b)[0] == dec_digit_char(b as int));
        lemma_dec_digit_char_inj(a as int, b as int);
    } else if a < 10 {
        lemma_dec_str_len(b / 10);
        assert(dec_str(b).len() >= 2);
    } else if b < 10 {
        lemma_dec_str_len(a / 10);
        assert(dec_str(a).len() >= 2);
    } else {
        assert(a / 10 < a) by (nonlinear_arith)
            requires
                a >= 10,
        ;
        let pa = dec_str(a / 10);
        let pb = dec_str(b / 10);
        assert(dec_str(a).last() == dec_digit_char((a % 10) as int));
        assert(dec_str(b).last() == dec_digit_char((b % 10) as int));
        lemma_dec_digit_char_inj((a % 10) as int, (b % 10) as int);
        assert(dec_str(a).drop_last() =~= pa);
        assert(dec_str(b).drop_last() =~= pb);
        lemma_dec_str_injective(a / 10, b / 10);
        assert(a == 10 * (a / 10) + a % 10) by (nonlinear_arith);
        assert(b == 10 * (b / 10) + b % 10) by (nonlinear_arith);
    }
}

/// Digit character of `d` as a string slice.
fn digit_str(d: u32) -> (r: &'static str)
    requires
        d < 10,
    ensures
        r@ == seq![dec_digit_char(d as int)],
{
    match d {
        0 => {
            proof {
                reveal_strlit("0");
                assert("0"@ =~= seq![dec_digit_char(0)]);
            }
            "0"
        },
        1 => {
            proof {
                reveal_strlit("1");
                assert("1"@ =~= seq![dec_digit_char(1)]);
            }
            "1"
        },
        2 => {
            proof {
                reveal_strlit("2");
                assert("2"@ =~= seq![dec_digit_char(2)]);
            }
            "2"
        },
        3 => {
            proof {
                reveal_strlit("3");
                assert("3"@ =~= seq![dec_digit_char(3)]);
            }
            "3"
        },
        4 => {
            proof {
                reveal_strlit("4");
                assert("4"@ =~= seq![dec_digit_char(4)]);
            }
            "4"
        },
        5 => {
            proof {
                reveal_strlit("5");
                assert("5"@ =~= seq![dec_digit_char(5)]);
            }
            "5"
        },
        6 => {
            proof {
                reveal_strlit("6");
                assert("6"@ =~= seq![dec_digit_char(6)]);
            }
            "6"
        },
        7 => {
            proof {
                reveal_strlit("7");
                assert("7"@ =~= seq![dec_digit_char(7)]);
            }
            "7"
        },
        8 => {
            proof {
                reveal_strlit("8");
                assert("8"@ =~= seq![dec_digit_char(8)]);
            }
            "8"
        },
        _ => {
            proof {
                reveal_strlit("9");
                assert("9"@ =~= seq![dec_digit_char(9)]);
            }
            "9"
        },
    }
}

/// Renders `n` as its decimal numeral.
pub fn u64_to_string(n: u64) -> (r: String)
    ensures
        r@ == dec_str(n as nat),
    decreases n,
{
    if n < 10 {
        digit_str(n as u32).to_owned()
    } else {
        proof {
            assert(n as int / 10 < n as int) by (nonlinear_arith)
                requires
                    n >= 10,
            ;
        }
        let mut s = u64_to_string(n / 10);
        s.append(digit_str((n % 10) as u32));
        s
    }
}

/// Holds when `p` is a prefix of `s`.
pub open spec fn spec_starts_with(s: Seq<char>, p: Seq<char>) -> bool {
    p.len() <= s.len() && s.subrange(0, p.len() as int) == p
}

/// Decides `spec_starts_with`.
pub fn str_starts_with(s: &str, p: &str) -> (r: bool)
    ensures
        r == spec_starts_with(s@, p@),
{
    let slen = s.unicode_len();
    let plen = p.unicode_len();
    if plen > slen {
        return false;
    }
    let mut i: usize = 0;
    while i < plen
        invariant
            i <= plen,
            plen <= slen,
            slen == s@.len(),
            plen == p@.len(),
            forall|j: int| 0 <= j < i ==> s@[j] == p@[j],
        decreases plen - i,
    {
        if s.get_char(i) != p.get_char(i) {
            return false;
        }
        i = i + 1;
    }
    proof {
        assert(s@.subrange(0, p@.len() as int) =~= p@);
    }
    true
}

} // verus!
