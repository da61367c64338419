//! Verified helpers over strings, seen in specifications as `Seq<char>`.

use vstd::prelude::*;

verus! {

/// The whitespace characters that line trimming removes.
pub open spec fn is_space(c: char) -> bool {
    c == ' ' || c == '\t' || c == '\r' || c == '\n'
}

/// Case-insensitive equality of two characters, ASCII letters only.
pub open spec fn char_eq_ci(a: char, b: char) -> bool {
    let x = a as u32;
    let y = b as u32;
    x == y || (65 <= x <= 90 && y == x + 32) || (97 <= x <= 122 && y == x - 32)
}

/// Case-insensitive equality of two character sequences.
pub open spec fn seq_eq_ci(s: Seq<char>, t: Seq<char>) -> bool {
    s.len() == t.len() && forall|i: int| 0 <= i < s.len() ==> char_eq_ci(s[i], t[i])
}

/// `p` is a prefix of `s`.
pub open spec fn has_prefix(s: Seq<char>, p: Seq<char>) -> bool {
    p.len() <= s.len() && s.subrange(0, p.len() as int) == p
}

/// `p` is a suffix of `s`.
pub open spec fn has_suffix(s: Seq<char>, p: Seq<char>) -> bool {
    p.len() <= s.len() && s.subrange(s.len() - p.len(), s.len() as int) == p
}

/// Index of the first occurrence of `c` at or after `i`, or the length of `s`.
pub open spec fn find_from(s: Seq<char>, c: char, i: int) -> int
    decreases s.len() - i,
{
    if i < 0 || i >= s.len() {
        s.len() as int
    } else if s[i] == c {
        i
    } else {
        find_from(s, c, i + 1)
    }
}

pub proof fn lemma_find_from_bounds(s: Seq<char>, c: char, i: int)
    requires
        0 <= i <= s.len(),
    ensures
        i <= find_from(s, c, i) <= s.len(),
        find_from(s, c, i) < s.len() ==> s[find_from(s, c, i)] == c,
        forall|j: int| i <= j < find_from(s, c, i) ==> s[j] != c,
    decreases s.len() - i,
{
    if i < s.len() && s[i] != c {
        lemma_find_from_bounds(s, c, i + 1);
    }
}

/// The pieces of `s` from position `i` on, split at every occurrence of `c`.
pub open spec fn split_from(s: Seq<char>, c: char, i: int) -> Seq<Seq<char>>
    decreases s.len() - i via split_from_dec
{
    if !(0 <= i <= s.len()) {
        Seq::empty()
    } else {
        let j = find_from(s, c, i);
        if j >= s.len() {
            seq![s.subrange(i, s.len() as int)]
        } else {
            seq![s.subrange(i, j)] + split_from(s, c, j + 1)
        }
    }
}

#[via_fn]
proof fn split_from_dec(s: Seq<char>, c: char, i: int) {
    if 0 <= i <= s.len() {
        lemma_find_from_bounds(s, c, i);
    }
}

/// The pieces of `s`, split at every occurrence of `c`.
pub open spec fn split_spec(s: Seq<char>, c: char) -> Seq<Seq<char>> {
    split_from(s, c, 0)
}

/// Index of the first character at or after `i` that is not whitespace.
pub open spec fn skip_spaces(s: Seq<char>, i: int) -> int
    decreases s.len() - i,
{
    if i < 0 || i >= s.len() {
        s.len() as int
    } else if is_space(s[i]) {
        skip_spaces(s, i + 1)
    } else {
        i
    }
}

pub proof fn lemma_skip_spaces_bounds(s: Seq<char>, i: int)
    requires
        0 <= i <= s.len(),
    ensures
        i <= skip_spaces(s, i) <= s.len(),
        skip_spaces(s, i) < s.len() ==> !is_space(s[skip_spaces(s, i)]),
        forall|j: int| i <= j < skip_spaces(s, i) ==> is_space(s[j]),
    decreases s.len() - i,
{
    if i < s.len() && is_space(s[i]) {
        lemma_skip_spaces_bounds(s, i + 1);
    }
}

/// One past the last character before `i` that is not whitespace.
pub open spec fn rskip_spaces(s: Seq<char>, i: int) -> int
    decreases i,
{
    if i <= 0 || i > s.len() {
        0
    } else if is_space(s[i - 1]) {
        rskip_spaces(s, i - 1)
    } else {
        i
    }
}

pub proof fn lemma_rskip_spaces_bounds(s: Seq<char>, i: int)
    requires
        0 <= i <= s.len(),
    ensures
        0 <= rskip_spaces(s, i) <= i,
        rskip_spaces(s, i) > 0 ==> !is_space(s[rskip_spaces(s, i) - 1]),
        forall|j: int| rskip_spaces(s, i) <= j < i ==> is_space(s[j]),
    decreases i,
{
    if 0 < i && is_space(s[i - 1]) {
        lemma_rskip_spaces_bounds(s, i - 1);
    }
}

/// `s` with leading and trailing whitespace removed.
pub open spec fn trim_spec(s: Seq<char>) -> Seq<char> {
    let a = skip_spaces(s, 0);
    if a == s.len() {
        Seq::empty()
    } else {
        s.subrange(a, rskip_spaces(s, s.len() as int))
    }
}

/// Character-wise equality of two string slices.
pub fn str_eq(a: &str, b: &str) -> (r: bool)
    ensures
        r == (a@ == b@),
{
    let alen: usize = a.unicode_len();
    let blen: usize = b.unicode_len();
    if alen != blen {
        assert(a@ != b@);
        return false;
    }
    let mut i: usize = 0;
    while i < alen
        invariant
            alen == a@.len(),
            alen == b@.len(),
            0 <= i <= alen,
            forall|j: int| 0 <= j < i ==> a@[j] == b@[j],
        decreases alen - i,
    {
        if a.get_char(i) != b.get_char(i) {
            return false;
        }
        i = i + 1;
    }
    assert(a@ =~= b@);
    true
}

/// Case-insensitive (ASCII) character-wise equality of two string slices.
pub fn str_eq_ci(a: &str, b: &str) -> (r: bool)
    ensures
        r == seq_eq_ci(a@, b@),
{
    let alen: usize = a.unicode_len();
    let blen: usize = b.unicode_len();
    if alen != blen {
        return false;
    }
    let mut i: usize = 0;
    while i < alen
        invariant
            alen == a@.len(),
            alen == b@.len(),
            0 <= i <= alen,
            forall|j: int| 0 <= j < i ==> char_eq_ci(a@[j], b@[j]),
        decreases alen - i,
    {
        let x = a.get_char(i) as u32;
        let y = b.get_char(i) as u32;
        let same = x == y || (65 <= x && x <= 90 && y == x + 32) || (97 <= x && x <= 122 && y
            == x - 32);
        if !same {
            return false;
        }
        i = i + 1;
    }
    true
}

/// Whether `p` is a prefix of `s`.
pub fn starts_with(s: &str, p: &str) -> (r: bool)
    ensures
        r == has_prefix(s@, p@),
{
    let plen: usize = p.unicode_len();
    let slen: usize = s.unicode_len();
    if plen > slen {
        return false;
    }
    let mut i: usize = 0;
    while i < plen
        invariant
            plen == p@.len(),
            slen == s@.len(),
            plen <= slen,
            0 <= i <= plen,
            forall|j: int| 0 <= j < i ==> s@[j] == p@[j],
        decreases plen - i,
    {
        if s.get_char(i) != p.get_char(i) {
            assert(s@.subrange(0, p@.len() as int)[i as int] != p@[i as int]);
            return false;
        }
        i = i + 1;
    }
    assert(s@.subrange(0, p@.len() as int) =~= p@);
    true
}

/// Whether `p` is a suffix of `s`.
pub fn ends_with(s: &str, p: &str) -> (r: bool)
    ensures
        r == has_suffix(s@, p@),
{
    let plen: usize = p.unicode_len();
    let slen: usize = s.unicode_len();
    if plen > slen {
        return false;
    }
    let off: usize = slen - plen;
    let mut i: usize = 0;
    while i < plen
        invariant
            plen == p@.len(),
            slen == s@.len(),
            off == slen - plen,
            0 <= i <= plen,
            forall|j: int| 0 <= j < i ==> s@[off + j] == p@[j],
        decreases plen - i,
    {
        if s.get_char(off + i) != p.get_char(i) {
            assert(s@.subrange(s@.len() - p@.len(), s@.len() as int)[i as int] != p@[i as int]);
            return false;
        }
        i = i + 1;
    }
    assert(s@.subrange(s@.len() - p@.len(), s@.len() as int) =~= p@);
    true
}

/// Index of the first occurrence of `c` at or after `from`, or the length of `s`.
pub fn find_char_from(s: &str, c: char, from: usize) -> (r: usize)
    requires
        from <= s@.len(),
    ensures
        r == find_from(s@, c, from as int),
{
    let slen: usize = s.unicode_len();
    let mut i: usize = from;
    while i < slen
        invariant
            slen == s@.len(),
            from <= i <= slen,
            forall|j: int| from <= j < i ==> s@[j] != c,
        decreases slen - i,
    {
        if s.get_char(i) == c {
            proof {
                lemma_find_from_bounds(s@, c, from as int);
                lemma_find_from_char_at(s@, c, from as int, i as int);
            }
            return i;
        }
        i = i + 1;
    }
    proof {
        lemma_find_from_none(s@, c, from as int);
    }
    slen
}

proof fn lemma_find_from_char_at(s: Seq<char>, c: char, from: int, i: int)
    requires
        0 <= from <= i < s.len(),
        s[i] == c,
        forall|j: int| from <= j < i ==> s[j] != c,
    ensures
        find_from(s, c, from) == i,
    decreases i - from,
{
    if from < i {
        lemma_find_from_char_at(s, c, from + 1, i);
    }
}

proof fn lemma_find_from_none(s: Seq<char>, c: char, from: int)
    requires
        0 <= from <= s.len(),
        forall|j: int| from <= j < s.len() ==> s[j] != c,
    ensures
        find_from(s, c, from) == s.len(),
    decreases s.len() - from,
{
    if from < s.len() {
        lemma_find_from_none(s, c, from + 1);
    }
}

/// `s` with leading and trailing whitespace removed.
pub fn trim(s: &str) -> (r: &str)
    ensures
        r@ == trim_spec(s@),
{
    let slen: usize = s.unicode_len();
    let mut a: usize = 0;
    loop
        invariant
            slen == s@.len(),
            0 <= a <= slen,
            forall|j: int| 0 <= j < a ==> is_space(s@[j]),
        ensures
            0 <= a <= slen,
            forall|j: int| 0 <= j < a ==> is_space(s@[j]),
            a < slen ==> !is_space(s@[a as int]),
        decreases slen - a,
    {
        if a < slen {
            let c = s.get_char(a);
            if c == ' ' || c == '\t' || c == '\r' || c == '\n' {
                a = a + 1;
            } else {
                break ;
            }
        } else {
            break ;
        }
    }
    proof {
        lemma_skip_spaces_at(s@, 0, a as int);
    }
    if a == slen {
        let r = s.substring_char(0, 0);
        assert(r@ =~= trim_spec(s@));
        return r;
    }
    let mut b: usize = slen;
    loop
        invariant
            slen == s@.len(),
            0 <= a < slen,
            a <= b <= slen,
            !is_space(s@[a as int]),
            forall|j: int| b <= j < slen ==> is_space(s@[j]),
        ensures
            a <= b <= slen,
            forall|j: int| b <= j < slen ==> is_space(s@[j]),
            b > a ==> !is_space(s@[b - 1]),
        decreases b,
    {
        if b > a {
            let c = s.get_char(b - 1);
            if c == ' ' || c == '\t' || c == '\r' || c == '\n' {
                b = b - 1;
            } else {
                break ;
            }
        } else {
            break ;
        }
    }
    assert(b > a) by {
        if b == a {
            assert(is_space(s@[a as int]));
        }
    }
    proof {
        lemma_rskip_spaces_at(s@, slen as int, b as int);
    }
    let r = s.substring_char(a, b);
    assert(r@ =~= trim_spec(s@));
    r
}

proof fn lemma_skip_spaces_at(s: Seq<char>, from: int, a: int)
    requires
        0 <= from <= a <= s.len(),
        forall|j: int| from <= j < a ==> is_space(s[j]),
        a < s.len() ==> !is_space(s[a]),
    ensures
        skip_spaces(s, from) == a,
    decreases a - from,
{
    if from < a {
        lemma_skip_spaces_at(s, from + 1, a);
    }
}

proof fn lemma_rskip_spaces_at(s: Seq<char>, from: int, b: int)
    requires
        0 <= b <= from <= s.len(),
        forall|j: int| b <= j < from ==> is_space(s[j]),
        b > 0 ==> !is_space(s[b - 1]),
    ensures
        rskip_spaces(s, from) == b,
    decreases from - b,
{
    if b < from {
        lemma_rskip_spaces_at(s, from - 1, b);
    }
}

/// The pieces of `s`, split at every occurrence of `c`; a separator at the end
/// yields a final empty piece.
pub fn split_on_char(s: &str, c: char) -> (r: Vec<String>)
    ensures
        r.deep_view() == split_spec(s@, c),
{
    let slen: usize = s.unicode_len();
    let mut r: Vec<String> = Vec::new();
    let mut i: usize = 0;
    loop
        invariant
            slen == s@.len(),
            0 <= i <= slen,
            split_spec(s@, c) =~= r.deep_view() + split_from(s@, c, i as int),
        decreases slen - i,
    {
        let j = find_char_from(s, c, i);
        proof {
            lemma_find_from_bounds(s@, c, i as int);
        }
        let piece = s.substring_char(i, j).to_owned();
        if j >= slen {
            let ghost old_r = r.deep_view();
            r.push(piece);
            assert(r.deep_view() =~= old_r + seq![s@.subrange(i as int, s@.len() as int)]);
            assert(r.deep_view() =~= split_spec(s@, c));
            return r;
        }
        let ghost old_r = r.deep_view();
        r.push(piece);
        assert(r.deep_view() =~= old_r + seq![s@.subrange(i as int, j as int)]);
        i = j + 1;
        assert(split_spec(s@, c) =~= r.deep_view() + split_from(s@, c, i as int));
    }
}

/// The lines of a text: pieces split at `'\n'`, a trailing newline yielding no
/// final empty line, and a `'\r'` left at the end of a line removed.
pub open spec fn lines_spec(s: Seq<char>) -> Seq<Seq<char>> {
    let parts = split_spec(s, '\n');
    let parts2 = if parts.len() > 0 && parts.last().len() == 0 {
        parts.drop_last()
    } else {
        parts
    };
    parts2.map_values(|p: Seq<char>| strip_cr(p))
}

/// `p` without a final carriage return, if it has one.
pub open spec fn strip_cr(p: Seq<char>) -> Seq<char> {
    if p.len() > 0 && p.last() == '\r' {
        p.drop_last()
    } else {
        p
    }
}

/// Split a text into its lines.
pub fn split_lines(s: &str) -> (r: Vec<String>)
    ensures
        r.deep_view() == lines_spec(s@),
{
    let parts = split_on_char(s, '\n');
    let mut out: Vec<String> = Vec::new();
    let n = parts.len();
    let keep: usize = if n > 0 && parts[n - 1].as_str().unicode_len() == 0 {
        n - 1
    } else {
        n
    };
    let ghost parts2 = if parts.deep_view().len() > 0 && parts.deep_view().last().len() == 0 {
        parts.deep_view().drop_last()
    } else {
        parts.deep_view()
    };
    assert(parts2.len() == keep);
    let mut i: usize = 0;
    while i < keep
        invariant
            keep <= n,
            n == parts.len(),
            n == parts.deep_view().len(),
            parts2.len() == keep,
            forall|k: int| 0 <= k < keep ==> parts2[k] == parts.deep_view()[k],
            0 <= i <= keep,
            out.deep_view() =~= parts2.subrange(0, i as int).map_values(
                |p: Seq<char>| strip_cr(p),
            ),
        decreases keep - i,
    {
        let line = &parts[i];
        let llen = line.as_str().unicode_len();
        let ghost old_out = out.deep_view();
        if llen > 0 && line.as_str().get_char(llen - 1) == '\r' {
            out.push(line.as_str().substring_char(0, llen - 1).to_owned());
            assert(out.deep_view().last() =~= strip_cr(parts2[i as int]));
        } else {
            out.push(line.as_str().substring_char(0, llen).to_owned());
            assert(out.deep_view().last() =~= strip_cr(parts2[i as int]));
        }
        assert(out.deep_view() =~= old_out + seq![strip_cr(parts2[i as int])]);
        assert(out.deep_view() =~= parts2.subrange(0, i + 1).map_values(
            |p: Seq<char>| strip_cr(p),
        ));
        i = i + 1;
    }
    assert(parts2.subrange(0, keep as int) =~= parts2);
    assert(out.deep_view() =~= lines_spec(s@));
    out
}

/// The decimal digit character for `d`.
pub open spec fn digit_char(d: int) -> char {
    if d == 0 {
        '0'
    } else if d == 1 {
        '1'
    } else if d == 2 {
        '2'
    } else if d == 3 {
        '3'
    } else if d == 4 {
        '4'
    } else if d == 5 {
        '5'
    } else if d == 6 {
        '6'
    } else if d == 7 {
        '7'
    } else if d == 8 {
        '8'
    } else if d == 9 {
        '9'
    } else if d == 10 {
        'a'
    } else if d == 11 {
        'b'
    } else if d == 12 {
        'c'
    } else if d == 13 {
        'd'
    } else if d == 14 {
        'e'
    } else {
        'f'
    }
}

/// The decimal digits of `n`, most significant first.
pub open spec fn dec_digits(n: int) -> Seq<char>
    decreases n,
{
    if n < 10 {
        seq![digit_char(n)]
    } else {
        dec_digits(n / 10) + seq![digit_char(n % 10)]
    }
}

/// The hexadecimal digits of `n`, most significant first, lower case.
pub open spec fn hex_digits(n: int) -> Seq<char>
    decreases n,
{
    if n < 16 {
        seq![digit_char(n)]
    } else {
        hex_digits(n / 16) + seq![digit_char(n % 16)]
    }
}

/// `s` left-padded with `'0'` to at least `w` characters.
pub open spec fn zero_pad(s: Seq<char>, w: int) -> Seq<char>
    decreases w - s.len(),
{
    if s.len() >= w {
        s
    } else {
        zero_pad(seq!['0'] + s, w)
    }
}

/// The single-character string for digit `d`.
fn digit_str(d: u64) -> (r: &'static str)
    requires
        d < 16,
    ensures
        r@ =~= seq![digit_char(d as int)],
{
    let r: &'static str = if d == 0 {
        "0"
    } else if d == 1 {
        "1"
    } else if d == 2 {
        "2"
    } else if d == 3 {
        "3"
    } else if d == 4 {
        "4"
    } else if d == 5 {
        "5"
    } else if d == 6 {
        "6"
    } else if d == 7 {
        "7"
    } else if d == 8 {
        "8"
    } else if d == 9 {
        "9"
    } else if d == 10 {
        "a"
    } else if d == 11 {
        "b"
    } else if d == 12 {
        "c"
    } else if d == 13 {
        "d"
    } else if d == 14 {
        "e"
    } else {
        "f"
    };
    proof {
        reveal_strlit("0");
        reveal_strlit("1");
        reveal_strlit("2");
        reveal_strlit("3");
        reveal_strlit("4");
        reveal_strlit("5");
        reveal_strlit("6");
        reveal_strlit("7");
        reveal_strlit("8");
        reveal_strlit("9");
        reveal_strlit("a");
        reveal_strlit("b");
        reveal_strlit("c");
        reveal_strlit("d");
        reveal_strlit("e");
        reveal_strlit("f");
    }
    r
}

/// `n` written in decimal.
pub fn u64_to_dec(n: u64) -> (r: String)
    ensures
        r@ == dec_digits(n as int),
    decreases n,
{
    if n < 10 {
        digit_str(n).to_owned()
    } else {
        let mut s = u64_to_dec(n / 10);
        s.append(digit_str(n % 10));
        assert(s@ =~= dec_digits(n as int));
        s
    }
}

/// `n` written in decimal, for wide counters.
pub fn u128_to_dec(n: u128) -> (r: String)
    ensures
        r@ == dec_digits(n as int),
    decreases n,
{
    if n < 10 {
        digit_str(n as u64).to_owned()
    } else {
        let mut s = u128_to_dec(n / 10);
        s.append(digit_str((n % 10) as u64));
        assert(s@ =~= dec_digits(n as int));
        s
    }
}

/// `n` written in hexadecimal, lower case, no leading zeroes.
pub fn u64_to_hex(n: u64) -> (r: String)
    ensures
        r@ == hex_digits(n as int),
    decreases n,
{
    if n < 16 {
        digit_str(n).to_owned()
    } else {
        let mut s = u64_to_hex(n / 16);
        s.append(digit_str(n % 16));
        assert(s@ =~= hex_digits(n as int));
        s
    }
}

/// `n` written in decimal, left-padded with zeroes to at least `w` characters.
pub fn u64_to_dec_pad(n: u64, w: usize) -> (r: String)
    ensures
        r@ == zero_pad(dec_digits(n as int), w as int),
{
    let mut s = u64_to_dec(n);
    proof {
        lemma_dec_digits_len(n as int);
    }
    while s.as_str().unicode_len() < w
        invariant
            s@.len() >= 1,
            zero_pad(s@, w as int) == zero_pad(dec_digits(n as int), w as int),
        decreases w - s@.len(),
    {
        let mut t = String::from_str("0");
        proof {
            reveal_strlit("0");
        }
        t.append(s.as_str());
        assert(t@ =~= seq!['0'] + s@);
        s = t;
    }
    s
}

pub proof fn lemma_dec_digits_len(n: int)
    ensures
        dec_digits(n).len() >= 1,
    decreases n,
{
    if n >= 10 {
        lemma_dec_digits_len(n / 10);
    }
}

} // verus!
