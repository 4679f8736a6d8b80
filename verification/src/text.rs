//! Character-level helpers shared by the header codec and the backend
//! output parsers. Text is handled as `Vec<char>` so that every step has a
//! direct `Seq<char>` model; `String` values are only materialised at the
//! edges.

use vstd::prelude::*;

verus! {

/// Turns an ASCII code point into the character it denotes.
pub fn ascii_char(b: u8) -> (c: char)
    requires
        b < 128,
    ensures
        c == (b as char),
{
    b as char
}

/// Appends one character to a string.
///
/// Relies on `String::push`: the character is appended at the end.
#[verifier::external_body]
pub fn push_char(s: &mut String, c: char)
    ensures
        final(s)@ == old(s)@.push(c),
{
    s.push(c);
}

/// Collects the characters of a string slice into a vector.
pub fn chars_of(s: &str) -> (v: Vec<char>)
    ensures
        v@ == s@,
{
    let n: usize = s.unicode_len();
    let mut v: Vec<char> = Vec::new();
    let mut i: usize = 0;
    while i < n
        invariant
            i <= n,
            n == s@.len(),
            v@ == s@.take(i as int),
        decreases n - i,
    {
        let c = s.get_char(i);
        v.push(c);
        i = i + 1;
        proof {
            assert(s@.take(i as int) =~= s@.take(i - 1).push(s@[i - 1]));
        }
    }
    proof {
        assert(s@.take(n as int) =~= s@);
    }
    v
}

/// Builds a string out of a sequence of characters.
pub fn string_of(v: &Vec<char>) -> (s: String)
    ensures
        s@ == v@,
{
    let mut s = String::new();
    let mut i: usize = 0;
    while i < v.len()
        invariant
            i <= v.len(),
            s@ == v@.take(i as int),
        decreases v.len() - i,
    {
        push_char(&mut s, v[i]);
        i = i + 1;
        proof {
            assert(v@.take(i as int) =~= v@.take(i - 1).push(v@[i - 1]));
        }
    }
    proof {
        assert(v@.take(v.len() as int) =~= v@);
    }
    s
}

/// The white-space characters stripped by [`trim_chars`].
pub open spec fn is_space(c: char) -> bool {
    c == ' ' || c == '\t' || c == '\r' || c == '\n'
}

pub open spec fn trim_front_spec(s: Seq<char>) -> Seq<char>
    decreases s.len(),
{
    if s.len() > 0 && is_space(s[0]) {
        trim_front_spec(s.skip(1))
    } else {
        s
    }
}

pub open spec fn trim_back_spec(s: Seq<char>) -> Seq<char>
    decreases s.len(),
{
    if s.len() > 0 && is_space(s[s.len() - 1]) {
        trim_back_spec(s.take(s.len() - 1))
    } else {
        s
    }
}

/// The sequence with leading and trailing white space removed.
pub open spec fn trim_spec(s: Seq<char>) -> Seq<char> {
    trim_back_spec(trim_front_spec(s))
}

proof fn lemma_trim_front_step(s: Seq<char>, i: int)
    requires
        0 <= i < s.len(),
        forall|j: int| 0 <= j < i ==> is_space(s[j]),
        is_space(s[i]),
    ensures
        trim_front_spec(s.skip(i)) == trim_front_spec(s.skip(i + 1)),
    decreases i + 1,
{
    let t = s.skip(i);
    assert(t[0] == s[i]);
    assert(t.skip(1) =~= s.skip(i + 1));
}

proof fn lemma_trim_front_all(s: Seq<char>, i: int)
    requires
        0 <= i <= s.len(),
        forall|j: int| 0 <= j < i ==> is_space(s[j]),
    ensures
        trim_front_spec(s) == trim_front_spec(s.skip(i)),
    decreases i,
{
    if i > 0 {
        lemma_trim_front_all(s, i - 1);
        lemma_trim_front_step(s, i - 1);
    } else {
        assert(s.skip(0) =~= s);
    }
}

proof fn lemma_trim_back_all(s: Seq<char>, j: int)
    requires
        0 <= j <= s.len(),
        forall|k: int| j <= k < s.len() ==> is_space(s[k]),
    ensures
        trim_back_spec(s) == trim_back_spec(s.take(j)),
    decreases s.len() - j,
{
    if j < s.len() {
        assert(is_space(s[s.len() - 1]));
        let t = s.take(s.len() - 1);
        assert(forall|k: int| j <= k < t.len() ==> t[k] == s[k]);
        lemma_trim_back_all(t, j);
        assert(t.take(j) =~= s.take(j));
    } else {
        assert(s.take(j) =~= s);
    }
}

/// Removes leading and trailing white space (space, tab, carriage return,
/// newline).
pub fn trim_chars(v: &Vec<char>) -> (r: Vec<char>)
    ensures
        r@ == trim_spec(v@),
{
    let n: usize = v.len();
    let mut i: usize = 0;
    while i < n && (v[i] == ' ' || v[i] == '\t' || v[i] == '\r' || v[i] == '\n')
        invariant
            i <= n,
            n == v@.len(),
            forall|j: int| 0 <= j < i ==> is_space(v@[j]),
        decreases n - i,
    {
        i = i + 1;
    }
    proof {
        lemma_trim_front_all(v@, i as int);
        if i < n {
            assert(v@.skip(i as int)[0] == v@[i as int]);
            assert(!is_space(v@.skip(i as int)[0]));
            assert(trim_front_spec(v@.skip(i as int)) == v@.skip(i as int));
        } else {
            assert(v@.skip(i as int) =~= Seq::<char>::empty());
            assert(trim_front_spec(v@) =~= v@.skip(i as int));
        }
    }
    let ghost front = v@.skip(i as int);
    assert(trim_front_spec(v@) == front);
    let mut j: usize = n;
    while j > i && (v[j - 1] == ' ' || v[j - 1] == '\t' || v[j - 1] == '\r' || v[j - 1] == '\n')
        invariant
            i <= j <= n,
            n == v@.len(),
            forall|k: int| j <= k < n ==> is_space(v@[k]),
        decreases j,
    {
        j = j - 1;
    }
    proof {
        assert(forall|k: int| 0 <= k < front.len() ==> front[k] == v@[i + k]);
        lemma_trim_back_all(front, j - i);
        if j > i {
            let t = front.take(j - i);
            assert(t[t.len() - 1] == v@[j - 1]);
            assert(!is_space(t[t.len() - 1]));
            assert(trim_back_spec(t) == t);
        } else {
            assert(front.take(j - i) =~= Seq::<char>::empty());
        }
    }
    let mut r: Vec<char> = Vec::new();
    let mut k: usize = i;
    while k < j
        invariant
            i <= k <= j <= n,
            n == v@.len(),
            r@ == v@.subrange(i as int, k as int),
        decreases j - k,
    {
        r.push(v[k]);
        k = k + 1;
        proof {
            assert(v@.subrange(i as int, k as int) =~= v@.subrange(i as int, k - 1).push(v@[k - 1]));
        }
    }
    proof {
        assert(r@ =~= front.take(j - i));
    }
    r
}

/// True when `s` starts with `p`.
pub open spec fn starts_with_spec(s: Seq<char>, p: Seq<char>) -> bool {
    s.len() >= p.len() && s.subrange(0, p.len() as int) == p
}

/// True when `v` starts with the characters of `p`.
pub fn begins_with(v: &Vec<char>, p: &str) -> (r: bool)
    ensures
        r == starts_with_spec(v@, p@),
{
    let n: usize = p.unicode_len();
    if v.len() < n {
        return false;
    }
    let mut i: usize = 0;
    while i < n
        invariant
            i <= n,
            n == p@.len(),
            v@.len() >= n,
            forall|j: int| 0 <= j < i ==> v@[j] == p@[j],
        decreases n - i,
    {
        if v[i] != p.get_char(i) {
            assert(v@.subrange(0, n as int)[i as int] != p@[i as int]);
            return false;
        }
        i = i + 1;
    }
    proof {
        assert(v@.subrange(0, n as int) =~= p@);
    }
    true
}

/// True when the characters of `v` are exactly those of `p`.
pub fn eq_lit(v: &Vec<char>, p: &str) -> (r: bool)
    ensures
        r == (v@ == p@),
{
    let n: usize = p.unicode_len();
    if v.len() != n {
        return false;
    }
    let b = begins_with(v, p);
    proof {
        assert(v@.subrange(0, n as int) =~= v@);
    }
    b
}

/// The suffix of `v` starting at index `n`.
pub fn suffix_from(v: &Vec<char>, n: usize) -> (r: Vec<char>)
    requires
        n <= v@.len(),
    ensures
        r@ == v@.skip(n as int),
{
    let mut r: Vec<char> = Vec::new();
    let mut i: usize = n;
    while i < v.len()
        invariant
            n <= i <= v@.len(),
            r@ == v@.subrange(n as int, i as int),
        decreases v.len() - i,
    {
        r.push(v[i]);
        i = i + 1;
        proof {
            assert(v@.subrange(n as int, i as int) =~= v@.subrange(n as int, i - 1).push(v@[i - 1]));
        }
    }
    proof {
        assert(v@.subrange(n as int, v@.len() as int) =~= v@.skip(n as int));
    }
    r
}

/// Appends a copy of `src` to `dst`.
pub fn append_chars(dst: &mut Vec<char>, src: &Vec<char>)
    ensures
        final(dst)@ == old(dst)@ + src@,
{
    let mut i: usize = 0;
    while i < src.len()
        invariant
            i <= src@.len(),
            dst@ == old(dst)@ + src@.take(i as int),
        decreases src.len() - i,
    {
        dst.push(src[i]);
        i = i + 1;
        proof {
            assert(old(dst)@ + src@.take(i as int)
                =~= (old(dst)@ + src@.take(i - 1)).push(src@[i - 1]));
        }
    }
    proof {
        assert(old(dst)@ + src@.take(src@.len() as int) =~= old(dst)@ + src@);
    }
}

/// ASCII case folding: upper-case letters become lower case, every other
/// character is kept.
pub open spec fn lower_char(c: char) -> char {
    if 'A' <= c && c <= 'Z' {
        (((c as u32) + 32) as u8) as char
    } else {
        c
    }
}

pub open spec fn lower_spec(s: Seq<char>) -> Seq<char> {
    s.map_values(|c: char| lower_char(c))
}

/// Folds every ASCII upper-case letter to lower case.
pub fn lower_chars(v: &Vec<char>) -> (r: Vec<char>)
    ensures
        r@ == lower_spec(v@),
{
    let mut r: Vec<char> = Vec::new();
    let mut i: usize = 0;
    while i < v.len()
        invariant
            i <= v@.len(),
            r@ == lower_spec(v@.take(i as int)),
        decreases v.len() - i,
    {
        let c = v[i];
        let n: u32 = c as u32;
        if 65 <= n && n <= 90 {
            r.push(ascii_char((n + 32) as u8));
        } else {
            r.push(c);
        }
        i = i + 1;
        proof {
            assert(lower_spec(v@.take(i as int))
                =~= lower_spec(v@.take(i - 1)).push(lower_char(v@[i - 1])));
        }
    }
    proof {
        assert(lower_spec(v@.take(v@.len() as int)) =~= lower_spec(v@));
    }
    r
}

/// True when `n` occurs as a contiguous run inside `h`.
pub open spec fn contains_seq(h: Seq<char>, n: Seq<char>) -> bool {
    exists|i: int| 0 <= i && i + n.len() <= h.len() && #[trigger] h.subrange(i, i + n.len()) == n
}

/// Substring search for a literal needle.
pub fn contains_lit(v: &Vec<char>, p: &str) -> (r: bool)
    ensures
        r == contains_seq(v@, p@),
{
    let n: usize = p.unicode_len();
    let hl: usize = v.len();
    if n == 0 {
        proof {
            assert(v@.subrange(0, 0 + p@.len() as int) =~= p@);
        }
        return true;
    }
    if n > hl {
        return false;
    }
    let mut i: usize = 0;
    while i <= hl - n
        invariant
            n == p@.len(),
            hl == v@.len(),
            0 < n <= hl,
            i <= hl - n + 1,
            forall|k: int| 0 <= k < i ==> #[trigger] v@.subrange(k, k + n as int) != p@,
        decreases hl - i,
    {
        let mut j: usize = 0;
        let mut hit: bool = true;
        while j < n
            invariant
                n == p@.len(),
                hl == v@.len(),
                i + n <= hl,
                j <= n,
                hit ==> forall|k: int| 0 <= k < j ==> v@[i + k] == p@[k],
                !hit ==> v@.subrange(i as int, i + n as int) != p@,
            decreases n - j,
        {
            if v[i + j] != p.get_char(j) {
                proof {
                    assert(v@.subrange(i as int, i + n as int)[j as int] != p@[j as int]);
                }
                hit = false;
                j = n;
            } else {
                j = j + 1;
            }
        }
        if hit {
            proof {
                assert(v@.subrange(i as int, i + n) =~= p@);
            }
            return true;
        }
        i = i + 1;
    }
    proof {
        assert forall|k: int| 0 <= k && k + p@.len() <= v@.len() implies #[trigger] v@.subrange(
            k,
            k + p@.len(),
        ) != p@ by {
            assert(k < i);
        }
    }
    false
}

/// Index of the first newline in `s`, or `s.len()` when there is none.
pub open spec fn line_end(s: Seq<char>) -> int
    decreases s.len(),
{
    if s.len() == 0 {
        0
    } else if s[0] == '\n' {
        0
    } else {
        1 + line_end(s.skip(1))
    }
}

proof fn lemma_line_end_at(s: Seq<char>, i: int)
    requires
        0 <= i <= s.len(),
        forall|j: int| 0 <= j < i ==> s[j] != '\n',
        i < s.len() ==> s[i] == '\n',
    ensures
        line_end(s) == i,
    decreases i,
{
    if i == 0 {
    } else {
        let t = s.skip(1);
        assert(forall|j: int| 0 <= j < i - 1 ==> t[j] == s[j + 1]);
        assert(i - 1 < t.len() ==> t[i - 1] == s[i]);
        lemma_line_end_at(t, i - 1);
    }
}

proof fn lemma_line_end_bounds(s: Seq<char>)
    ensures
        0 <= line_end(s) <= s.len(),
    decreases s.len(),
{
    if s.len() > 0 && s[0] != '\n' {
        lemma_line_end_bounds(s.skip(1));
    }
}

/// The lines of `s`: maximal runs separated by `'\n'`. The empty sequence
/// has no lines; a trailing newline does not open a final empty line.
pub open spec fn split_lines_spec(s: Seq<char>) -> Seq<Seq<char>>
    decreases s.len(),
    via split_lines_decreases
{
    if s.len() == 0 {
        Seq::empty()
    } else {
        let e = line_end(s);
        if e >= s.len() {
            seq![s]
        } else {
            seq![s.take(e)] + split_lines_spec(s.skip(e + 1))
        }
    }
}

#[via_fn]
proof fn split_lines_decreases(s: Seq<char>) {
    lemma_line_end_bounds(s);
}

/// The views of a vector of character vectors.
pub open spec fn views_of(s: Seq<Vec<char>>) -> Seq<Seq<char>> {
    s.map_values(|l: Vec<char>| l@)
}

proof fn lemma_split_at_newline(cur: Seq<char>, rest: Seq<char>)
    requires
        forall|j: int| 0 <= j < cur.len() ==> cur[j] != '\n',
        rest.len() > 0,
        rest[0] == '\n',
    ensures
        split_lines_spec(cur + rest) =~= seq![cur] + split_lines_spec(rest.skip(1)),
{
    let u = cur + rest;
    assert(u[cur.len() as int] == '\n');
    lemma_line_end_at(u, cur.len() as int);
    assert(u.take(cur.len() as int) =~= cur);
    assert(u.skip(cur.len() as int + 1) =~= rest.skip(1));
}

proof fn lemma_split_last(cur: Seq<char>)
    requires
        forall|j: int| 0 <= j < cur.len() ==> cur[j] != '\n',
    ensures
        cur.len() == 0 ==> split_lines_spec(cur) =~= Seq::<Seq<char>>::empty(),
        cur.len() > 0 ==> split_lines_spec(cur) =~= seq![cur],
{
    lemma_line_end_at(cur, cur.len() as int);
}

/// Splits `v` at newline characters, as [`split_lines_spec`] describes.
pub fn split_lines(v: &Vec<char>) -> (r: Vec<Vec<char>>)
    ensures
        views_of(r@) == split_lines_spec(v@),
{
    let mut lines: Vec<Vec<char>> = Vec::new();
    let mut cur: Vec<char> = Vec::new();
    let mut i: usize = 0;
    proof {
        assert(cur@ + v@.skip(0) =~= v@);
        assert(views_of(lines@) =~= Seq::<Seq<char>>::empty());
    }
    while i < v.len()
        invariant
            i <= v@.len(),
            forall|j: int| 0 <= j < cur@.len() ==> cur@[j] != '\n',
            split_lines_spec(v@) =~= views_of(lines@) + split_lines_spec(cur@ + v@.skip(i as int)),
        decreases v.len() - i,
    {
        let c = v[i];
        let ghost rest = v@.skip(i as int);
        proof {
            assert(rest[0] == v@[i as int]);
        }
        if c == '\n' {
            proof {
                lemma_split_at_newline(cur@, rest);
                assert(rest.skip(1) =~= v@.skip(i + 1));
            }
            let ghost old_lines = lines@;
            let ghost old_cur = cur@;
            lines.push(cur);
            cur = Vec::new();
            proof {
                assert(views_of(old_lines.push(lines@[old_lines.len() as int]))
                    =~= views_of(old_lines).push(old_cur));
                assert(views_of(lines@) =~= views_of(old_lines).push(old_cur));
                assert(views_of(old_lines) + (seq![old_cur] + split_lines_spec(v@.skip(i + 1)))
                    =~= views_of(lines@) + split_lines_spec(v@.skip(i + 1)));
                assert(cur@ + v@.skip(i + 1) =~= v@.skip(i + 1));
            }
        } else {
            proof {
                assert(cur@.push(v@[i as int]) + v@.skip(i + 1) =~= cur@ + v@.skip(i as int));
            }
            cur.push(c);
        }
        i = i + 1;
    }
    proof {
        assert(cur@ + v@.skip(i as int) =~= cur@);
        lemma_split_last(cur@);
    }
    if cur.len() > 0 {
        let ghost old_lines = lines@;
        let ghost old_cur = cur@;
        lines.push(cur);
        proof {
            assert(views_of(lines@) =~= views_of(old_lines).push(old_cur));
            assert(views_of(old_lines) + seq![old_cur] =~= views_of(lines@));
        }
    } else {
        proof {
            assert(views_of(lines@) + Seq::<Seq<char>>::empty() =~= views_of(lines@));
        }
    }
    lines
}

/// The character for a decimal digit value.
pub open spec fn digit_char(d: int) -> char {
    ((48 + d) as u8) as char
}

/// The decimal digits of a non-negative number, most significant first.
pub open spec fn dec_spec(n: int) -> Seq<char>
    decreases n,
{
    if n < 10 {
        seq![digit_char(n)]
    } else {
        dec_spec(n / 10).push(digit_char(n % 10))
    }
}

fn digit_exec(d: u8) -> (c: char)
    requires
        d < 10,
    ensures
        c == digit_char(d as int),
{
    ascii_char(48 + d)
}

/// The decimal rendering of `n`.
pub fn u64_to_chars(n: u64) -> (r: Vec<char>)
    ensures
        r@ == dec_spec(n as int),
    decreases n,
{
    if n < 10 {
        let mut r: Vec<char> = Vec::new();
        r.push(digit_exec(n as u8));
        proof {
            assert(r@ =~= dec_spec(n as int));
        }
        r
    } else {
        let mut r = u64_to_chars(n / 10);
        r.push(digit_exec((n % 10) as u8));
        r
    }
}

/// The decimal rendering of `n`, left-padded with zeroes to at least
/// `width` characters.
pub open spec fn padded_spec(n: int, width: int) -> Seq<char> {
    let d = dec_spec(n);
    if d.len() >= width {
        d
    } else {
        Seq::new((width - d.len()) as nat, |i: int| '0') + d
    }
}

/// Appends the zero-padded decimal rendering of `n` to `out`.
pub fn push_padded(out: &mut Vec<char>, n: u16, width: usize)
    ensures
        final(out)@ == old(out)@ + padded_spec(n as int, width as int),
{
    let digits = u64_to_chars(n as u64);
    let ghost mid = out@;
    let mut pad: usize = 0;
    if digits.len() < width {
        pad = width - digits.len();
    }
    let mut k: usize = 0;
    while k < pad
        invariant
            k <= pad,
            out@ == mid + Seq::new(k as nat, |i: int| '0'),
        decreases pad - k,
    {
        out.push('0');
        k = k + 1;
        proof {
            assert(mid + Seq::new(k as nat, |i: int| '0')
                =~= (mid + Seq::new((k - 1) as nat, |i: int| '0')).push('0'));
        }
    }
    append_chars(out, &digits);
    proof {
        assert(out@ =~= mid + padded_spec(n as int, width as int));
    }
}

/// True for an ASCII decimal digit.
pub open spec fn is_digit(c: char) -> bool {
    48 <= c as u32 && c as u32 <= 57
}

pub open spec fn digit_val(c: char) -> int {
    c as u32 - 48
}

/// The value of a digit string, most significant digit first.
pub open spec fn digits_val(s: Seq<char>) -> int
    decreases s.len(),
{
    if s.len() == 0 {
        0
    } else {
        digits_val(s.take(s.len() - 1)) * 10 + digit_val(s[s.len() - 1])
    }
}

pub open spec fn all_digits(s: Seq<char>) -> bool {
    forall|i: int| 0 <= i < s.len() ==> is_digit(#[trigger] s[i])
}

pub open spec fn digits_u32(t: Seq<char>) -> Option<u32> {
    if t.len() > 0 && all_digits(t) && digits_val(t) <= u32::MAX {
        Some(digits_val(t) as u32)
    } else {
        None
    }
}

/// What `str::parse::<u32>` accepts: an optional leading `'+'`, then one
/// or more decimal digits whose value fits in 32 bits.
pub open spec fn parse_u32_spec(s: Seq<char>) -> Option<u32> {
    if s.len() > 0 && s[0] == '+' {
        digits_u32(s.skip(1))
    } else {
        digits_u32(s)
    }
}

proof fn lemma_digits_val_nonneg(s: Seq<char>)
    requires
        all_digits(s),
    ensures
        digits_val(s) >= 0,
    decreases s.len(),
{
    if s.len() > 0 {
        let t = s.take(s.len() - 1);
        assert forall|i: int| 0 <= i < t.len() implies is_digit(#[trigger] t[i]) by {
            assert(t[i] == s[i]);
        }
        lemma_digits_val_nonneg(t);
    }
}

proof fn lemma_digits_val_grows(s: Seq<char>, i: int)
    requires
        all_digits(s),
        0 <= i <= s.len(),
    ensures
        digits_val(s.take(i)) <= digits_val(s),
    decreases s.len() - i,
{
    if i < s.len() {
        let t = s.take(i + 1);
        assert forall|k: int| 0 <= k < t.len() implies is_digit(#[trigger] t[k]) by {
            assert(t[k] == s[k]);
        }
        let u = s.take(i);
        assert forall|k: int| 0 <= k < u.len() implies is_digit(#[trigger] u[k]) by {
            assert(u[k] == s[k]);
        }
        assert(t.take(t.len() - 1) =~= s.take(i));
        lemma_digits_val_nonneg(u);
        assert(digits_val(t) == digits_val(s.take(i)) * 10 + digit_val(s[i]));
        assert(digits_val(s.take(i)) * 10 >= digits_val(s.take(i)));
        assert(digit_val(s[i]) >= 0);
        lemma_digits_val_grows(s, i + 1);
        assert(s.take(s.len() as int) =~= s);
    } else {
        assert(s.take(i) =~= s);
    }
}

/// Parses a decimal number the way `str::parse::<u32>` does.
pub fn parse_u32_chars(v: &Vec<char>) -> (r: Option<u32>)
    ensures
        r == parse_u32_spec(v@),
{
    let mut start: usize = 0;
    if v.len() > 0 && v[0] == '+' {
        start = 1;
    }
    let ghost t = if v@.len() > 0 && v@[0] == '+' {
        v@.skip(1)
    } else {
        v@
    };
    proof {
        assert(t =~= v@.subrange(start as int, v@.len() as int));
        if v@.len() > 0 && v@[0] == '+' {
            assert(v@.skip(1) =~= t);
        }
        assert(parse_u32_spec(v@) == digits_u32(t));
    }
    if v.len() == start {
        return None;
    }
    let mut acc: u32 = 0;
    let mut i: usize = start;
    while i < v.len()
        invariant
            start <= i <= v@.len(),
            start <= 1,
            t == v@.subrange(start as int, v@.len() as int),
            parse_u32_spec(v@) == digits_u32(t),
            forall|k: int| start <= k < i ==> is_digit(v@[k]),
            acc as int == digits_val(t.take(i - start)),
        decreases v.len() - i,
    {
        let c = v[i];
        let n: u32 = c as u32;
        if n < 48 || n > 57 {
            proof {
                assert(t[i - start] == v@[i as int]);
                assert(!all_digits(t)) by {
                    assert(0 <= i - start < t.len() && !is_digit(t[i - start]));
                }
            }
            return None;
        }
        let d: u32 = n - 48;
        proof {
            assert(t.take(i + 1 - start).take(i - start) =~= t.take(i - start));
            assert(t.take(i + 1 - start)[i - start] == v@[i as int]);
        }
        if acc > (u32::MAX - d) / 10 {
            proof {
                assert forall|k: int| 0 <= k < t.take(i + 1 - start).len() implies is_digit(
                    #[trigger] t.take(i + 1 - start)[k],
                ) by {
                    assert(t.take(i + 1 - start)[k] == v@[start + k]);
                }
                assert(digits_val(t.take(i + 1 - start)) == acc as int * 10 + d);
                assert(acc as int * 10 + d > u32::MAX) by {
                    assert(acc as int >= (u32::MAX - d) / 10 + 1);
                    assert(((u32::MAX - d) / 10 + 1) * 10 + d > u32::MAX) by (nonlinear_arith);
                };
                if all_digits(t) {
                    lemma_digits_val_grows(t, i + 1 - start);
                    assert(digits_val(t) > u32::MAX);
                }
            }
            return None;
        }
        proof {
            assert(acc as int * 10 + d <= u32::MAX) by {
                assert(acc as int <= (u32::MAX - d) / 10);
                assert(((u32::MAX - d) / 10) * 10 + d <= u32::MAX) by (nonlinear_arith);
            };
        }
        acc = acc * 10 + d;
        i = i + 1;
    }
    proof {
        assert(t.take(i - start) =~= t);
        assert forall|k: int| 0 <= k < t.len() implies is_digit(#[trigger] t[k]) by {
            assert(t[k] == v@[start + k]);
        }
        assert(all_digits(t));
    }
    Some(acc)
}

/// Index of the first occurrence of `c` in `s`, or `s.len()` when there
/// is none.
pub open spec fn index_of_char(s: Seq<char>, c: char) -> int
    decreases s.len(),
{
    if s.len() == 0 {
        0
    } else if s[0] == c {
        0
    } else {
        1 + index_of_char(s.skip(1), c)
    }
}

pub(crate) proof fn lemma_index_of_char_at(s: Seq<char>, c: char, i: int)
    requires
        0 <= i <= s.len(),
        forall|j: int| 0 <= j < i ==> s[j] != c,
        i < s.len() ==> s[i] == c,
    ensures
        index_of_char(s, c) == i,
    decreases i,
{
    if i > 0 {
        let t = s.skip(1);
        assert(forall|j: int| 0 <= j < i - 1 ==> t[j] == s[j + 1]);
        assert(i - 1 < t.len() ==> t[i - 1] == s[i]);
        lemma_index_of_char_at(t, c, i - 1);
    }
}

/// Index of the first occurrence of `c`, as [`index_of_char`] says.
pub fn find_char(v: &Vec<char>, c: char) -> (r: Option<usize>)
    ensures
        match r {
            Some(i) => i < v@.len() && v@[i as int] == c && index_of_char(v@, c) == i,
            None => index_of_char(v@, c) == v@.len(),
        },
{
    let n: usize = v.len();
    let mut i: usize = 0;
    while i < n
        invariant
            i <= n,
            n == v@.len(),
            forall|j: int| 0 <= j < i ==> v@[j] != c,
        decreases n - i,
    {
        if v[i] == c {
            proof {
                lemma_index_of_char_at(v@, c, i as int);
            }
            return Some(i);
        }
        i = i + 1;
    }
    proof {
        lemma_index_of_char_at(v@, c, n as int);
    }
    None
}

/// The prefix of `v` up to index `n`.
pub fn prefix_to(v: &Vec<char>, n: usize) -> (r: Vec<char>)
    requires
        n <= v@.len(),
    ensures
        r@ == v@.take(n as int),
{
    let mut r: Vec<char> = Vec::new();
    let mut i: usize = 0;
    while i < n
        invariant
            i <= n <= v@.len(),
            r@ == v@.subrange(0, i as int),
        decreases n - i,
    {
        r.push(v[i]);
        i = i + 1;
        proof {
            assert(v@.subrange(0, i as int) =~= v@.subrange(0, i - 1).push(v@[i - 1]));
        }
    }
    r
}

/// Index of the last occurrence of `c` in `s`, or `-1` when there is
/// none.
pub open spec fn last_index_of_char(s: Seq<char>, c: char) -> int
    decreases s.len(),
{
    if s.len() == 0 {
        -1
    } else if s[s.len() - 1] == c {
        s.len() - 1
    } else {
        last_index_of_char(s.take(s.len() - 1), c)
    }
}

pub(crate) proof fn lemma_last_index_of_char_at(s: Seq<char>, c: char, i: int)
    requires
        -1 <= i < s.len(),
        forall|j: int| i < j < s.len() ==> s[j] != c,
        i >= 0 ==> s[i] == c,
    ensures
        last_index_of_char(s, c) == i,
    decreases s.len() - i,
{
    if i < s.len() - 1 {
        let t = s.take(s.len() - 1);
        assert(forall|j: int| i < j < t.len() ==> t[j] == s[j]);
        assert(i >= 0 ==> t[i] == s[i]);
        lemma_last_index_of_char_at(t, c, i);
    }
}

/// True when the two string slices hold the same characters.
pub fn str_eq(a: &str, b: &str) -> (r: bool)
    ensures
        r == (a@ == b@),
{
    let n: usize = a.unicode_len();
    if n != b.unicode_len() {
        return false;
    }
    let mut i: usize = 0;
    while i < n
        invariant
            i <= n,
            n == a@.len(),
            n == b@.len(),
            forall|j: int| 0 <= j < i ==> a@[j] == b@[j],
        decreases n - i,
    {
        if a.get_char(i) != b.get_char(i) {
            return false;
        }
        i = i + 1;
    }
    proof {
        assert(a@ =~= b@);
    }
    true
}

/// Index of the last occurrence of `c` in `v`.
pub fn rfind_char(v: &Vec<char>, c: char) -> (r: Option<usize>)
    ensures
        match r {
            Some(i) => i < v@.len() && v@[i as int] == c && forall|j: int|
                i < j < v@.len() ==> v@[j] != c,
            None => forall|j: int| 0 <= j < v@.len() ==> v@[j] != c,
        },
{
    let mut i: usize = v.len();
    while i > 0
        invariant
            i <= v@.len(),
            forall|j: int| i <= j < v@.len() ==> v@[j] != c,
        decreases i,
    {
        i = i - 1;
        if v[i] == c {
            return Some(i);
        }
    }
    None
}

} // verus!
