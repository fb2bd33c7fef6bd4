//! Character-level text helpers shared by the path grammar, the
//! query-string builders and the message renderers.
//!
//! Text is handled as `Vec<char>` inside the library and turned into a
//! `String` at the edges; every helper states its result over `Seq<char>`.
use vstd::prelude::*;

verus! {

/// `sep`-joined concatenation of `parts` (what `[..].join(sep)` returns).
pub open spec fn join_with(parts: Seq<Seq<char>>, sep: Seq<char>) -> Seq<char>
    decreases parts.len(),
{
    if parts.len() == 0 {
        Seq::empty()
    } else if parts.len() == 1 {
        parts[0]
    } else {
        join_with(parts.drop_last(), sep) + sep + parts.last()
    }
}

/// `s` split at every `sep` character, empty pieces kept; never empty
/// (what `str::split` yields).
pub open spec fn split_on(s: Seq<char>, sep: char) -> Seq<Seq<char>>
    decreases s.len(),
{
    if s.len() == 0 {
        seq![Seq::<char>::empty()]
    } else {
        let front = split_on(s.drop_last(), sep);
        if s.last() == sep {
            front.push(Seq::empty())
        } else {
            front.update(front.len() - 1, front.last().push(s.last()))
        }
    }
}

/// The character views of a sequence of character vectors.
pub open spec fn texts(v: Seq<Vec<char>>) -> Seq<Seq<char>> {
    Seq::new(v.len(), |i: int| v[i]@)
}

/// `s` ends with `suffix`.
pub open spec fn has_suffix(s: Seq<char>, suffix: Seq<char>) -> bool {
    suffix.len() <= s.len() && s.skip(s.len() - suffix.len()) == suffix
}

/// `s` starts with `prefix`.
pub open spec fn has_prefix(s: Seq<char>, prefix: Seq<char>) -> bool {
    prefix.len() <= s.len() && s.take(prefix.len() as int) == prefix
}

/// The characters of `s`, in order.
pub fn chars_of(s: &str) -> (v: Vec<char>)
    ensures
        v@ == s@,
{
    let mut v: Vec<char> = Vec::new();
    for c in it: s.chars()
        invariant
            v@ == it.seq().take(it.index()),
    {
        v.push(c);
    }
    v
}

/// `String::push`: appends one character.
#[verifier::external_body]
fn push_char(s: &mut String, c: char)
    ensures
        final(s)@ == old(s)@.push(c),
{
    s.push(c);
}

/// A `String` holding exactly the given characters.
pub fn string_of(v: &[char]) -> (s: String)
    ensures
        s@ == v@,
{
    let mut s = String::new();
    for i in 0..v.len()
        invariant
            s@ == v@.take(i as int),
    {
        push_char(&mut s, v[i]);
        assert(v@.take(i + 1) == v@.take(i as int).push(v@[i as int]));
    }
    assert(v@.take(v@.len() as int) == v@);
    s
}

/// Appends `extra` to `v`.
pub fn extend_chars(v: &mut Vec<char>, extra: &[char])
    ensures
        final(v)@ == old(v)@ + extra@,
{
    let ghost start = v@;
    for i in 0..extra.len()
        invariant
            v@ == start + extra@.take(i as int),
    {
        v.push(extra[i]);
        assert(extra@.take(i + 1) == extra@.take(i as int).push(extra@[i as int]));
    }
    assert(extra@.take(extra@.len() as int) == extra@);
}

/// Appends the characters of a string literal (or any `&str`) to `v`.
pub fn extend_str(v: &mut Vec<char>, extra: &str)
    ensures
        final(v)@ == old(v)@ + extra@,
{
    let e = chars_of(extra);
    extend_chars(v, &e);
}

/// `a` and `b` hold the same characters.
pub fn eq_chars(a: &[char], b: &[char]) -> (r: bool)
    ensures
        r == (a@ == b@),
{
    if a.len() != b.len() {
        return false;
    }
    let mut i: usize = 0;
    while i < a.len()
        invariant
            a@.len() == b@.len(),
            i <= a@.len(),
            forall|j: int| 0 <= j < i ==> a@[j] == b@[j],
        decreases a@.len() - i,
    {
        if a[i] != b[i] {
            return false;
        }
        i = i + 1;
    }
    assert(a@ =~= b@);
    true
}

/// `a` holds the same characters as the string `b`.
pub fn eq_str(a: &[char], b: &str) -> (r: bool)
    ensures
        r == (a@ == b@),
{
    let bc = chars_of(b);
    eq_chars(a, &bc)
}

/// The characters `v[from..to]`.
pub fn slice_chars(v: &[char], from: usize, to: usize) -> (r: Vec<char>)
    requires
        from <= to <= v@.len(),
    ensures
        r@ == v@.subrange(from as int, to as int),
{
    let mut r: Vec<char> = Vec::new();
    let mut i = from;
    while i < to
        invariant
            from <= i <= to <= v@.len(),
            r@ == v@.subrange(from as int, i as int),
        decreases to - i,
    {
        r.push(v[i]);
        assert(v@.subrange(from as int, i + 1) == v@.subrange(from as int, i as int).push(
            v@[i as int],
        ));
        i = i + 1;
    }
    r
}

/// `s` ends with `suffix`.
pub fn ends_with_chars(s: &[char], suffix: &[char]) -> (r: bool)
    ensures
        r == has_suffix(s@, suffix@),
{
    if suffix.len() > s.len() {
        return false;
    }
    let tail = slice_chars(s, s.len() - suffix.len(), s.len());
    assert(tail@ == s@.skip(s@.len() - suffix@.len()));
    eq_chars(&tail, suffix)
}

/// `s` starts with `prefix`.
pub fn starts_with_chars(s: &[char], prefix: &[char]) -> (r: bool)
    ensures
        r == has_prefix(s@, prefix@),
{
    if prefix.len() > s.len() {
        return false;
    }
    let head = slice_chars(s, 0, prefix.len());
    assert(head@ == s@.take(prefix@.len() as int));
    eq_chars(&head, prefix)
}

/// The pieces of `s` between `sep` characters (`s.split(sep)`).
pub fn split_chars(s: &[char], sep: char) -> (r: Vec<Vec<char>>)
    ensures
        texts(r@) == split_on(s@, sep),
        r@.len() >= 1,
{
    let mut done: Vec<Vec<char>> = Vec::new();
    let mut cur: Vec<char> = Vec::new();
    for i in 0..s.len()
        invariant
            texts(done@).push(cur@) == split_on(s@.take(i as int), sep),
    {
        let ghost before = s@.take(i as int);
        let ghost front = split_on(before, sep);
        let ghost old_dv = texts(done@);
        assert(s@.take(i + 1).drop_last() == before);
        assert(s@.take(i + 1).last() == s@[i as int]);
        if s[i] == sep {
            let finished = cur;
            done.push(finished);
            cur = Vec::new();
            assert(texts(done@) =~= old_dv.push(finished@));
            assert(texts(done@).push(cur@) =~= front.push(Seq::empty()));
        } else {
            cur.push(s[i]);
            assert(texts(done@).push(cur@) =~= front.update(
                front.len() - 1,
                front.last().push(s@[i as int]),
            ));
        }
    }
    assert(s@.take(s@.len() as int) == s@);
    let ghost old_dv = texts(done@);
    let ghost last = cur@;
    done.push(cur);
    assert(texts(done@) =~= old_dv.push(last));
    done
}

/// `parts[from..to]` joined by `sep`.
pub fn join_range(parts: &[Vec<char>], from: usize, to: usize, sep: &[char]) -> (r: Vec<char>)
    requires
        from <= to <= parts@.len(),
    ensures
        r@ == join_with(texts(parts@).subrange(from as int, to as int), sep@),
{
    let ghost all = texts(parts@);
    let mut r: Vec<char> = Vec::new();
    let mut i = from;
    while i < to
        invariant
            from <= i <= to <= parts@.len(),
            all == texts(parts@),
            r@ == join_with(all.subrange(from as int, i as int), sep@),
        decreases to - i,
    {
        let ghost pre = all.subrange(from as int, i as int);
        let ghost post = all.subrange(from as int, i + 1);
        assert(post.drop_last() == pre);
        assert(post.last() == parts@[i as int]@);
        if i > from {
            extend_chars(&mut r, sep);
        }
        extend_chars(&mut r, parts[i].as_slice());
        assert(r@ == join_with(post, sep@)) by {
            if i == from {
                assert(post.len() == 1);
            }
        }
        i = i + 1;
    }
    r
}

/// `parts` joined by `sep`.
pub fn join_chars(parts: &[Vec<char>], sep: &[char]) -> (r: Vec<char>)
    ensures
        r@ == join_with(texts(parts@), sep@),
{
    let r = join_range(parts, 0, parts.len(), sep);
    assert(texts(parts@).subrange(0, parts@.len() as int) == texts(parts@));
    r
}

/// Lexicographic order on texts, by code point (the order `String`'s
/// `Ord` gives: UTF-8 byte order and code-point order agree).
pub open spec fn lex_lt(a: Seq<char>, b: Seq<char>) -> bool
    decreases a.len(),
{
    if a.len() == 0 {
        b.len() > 0
    } else if b.len() == 0 {
        false
    } else if a[0] < b[0] {
        true
    } else if a[0] > b[0] {
        false
    } else {
        lex_lt(a.drop_first(), b.drop_first())
    }
}

pub proof fn lemma_lex_irreflexive(a: Seq<char>)
    ensures
        !lex_lt(a, a),
    decreases a.len(),
{
    if a.len() > 0 {
        lemma_lex_irreflexive(a.drop_first());
    }
}

pub proof fn lemma_lex_total(a: Seq<char>, b: Seq<char>)
    ensures
        a != b ==> lex_lt(a, b) || lex_lt(b, a),
        !(lex_lt(a, b) && lex_lt(b, a)),
    decreases a.len(),
{
    if a.len() > 0 && b.len() > 0 {
        lemma_lex_total(a.drop_first(), b.drop_first());
        if a != b && a[0] == b[0] {
            assert(a == seq![a[0]] + a.drop_first());
            assert(b == seq![b[0]] + b.drop_first());
            assert(a.drop_first() != b.drop_first());
        }
    } else if a.len() == 0 && b.len() == 0 {
        assert(a == b);
    }
}

pub proof fn lemma_lex_transitive(a: Seq<char>, b: Seq<char>, c: Seq<char>)
    requires
        lex_lt(a, b),
        lex_lt(b, c),
    ensures
        lex_lt(a, c),
    decreases a.len(),
{
    if a.len() > 0 && b.len() > 0 && c.len() > 0 {
        if a[0] == b[0] && b[0] == c[0] {
            lemma_lex_transitive(a.drop_first(), b.drop_first(), c.drop_first());
        }
    }
}

/// A common prefix does not change the order.
pub proof fn lemma_lex_common_prefix(p: Seq<char>, x: Seq<char>, y: Seq<char>)
    ensures
        lex_lt(p + x, p + y) == lex_lt(x, y),
    decreases p.len(),
{
    if p.len() > 0 {
        assert((p + x).drop_first() =~= p.drop_first() + x);
        assert((p + y).drop_first() =~= p.drop_first() + y);
        lemma_lex_common_prefix(p.drop_first(), x, y);
    } else {
        assert(p + x =~= x);
        assert(p + y =~= y);
    }
}

/// Between texts of equal length the order is decided before their end,
/// so whatever follows does not change it.
pub proof fn lemma_lex_equal_length_extend(x: Seq<char>, y: Seq<char>, u: Seq<char>, v: Seq<char>)
    requires
        x.len() == y.len(),
        lex_lt(x, y),
    ensures
        lex_lt(x + u, y + v),
    decreases x.len(),
{
    assert((x + u)[0] == x[0] && (y + v)[0] == y[0]);
    if x[0] == y[0] {
        assert((x + u).drop_first() =~= x.drop_first() + u);
        assert((y + v).drop_first() =~= y.drop_first() + v);
        lemma_lex_equal_length_extend(x.drop_first(), y.drop_first(), u, v);
    }
}

/// `10` to the power `w`.
pub open spec fn pow10(w: nat) -> nat
    decreases w,
{
    if w == 0 {
        1
    } else {
        10 * pow10((w - 1) as nat)
    }
}

/// `n` written with exactly `w` decimal digits (its last `w` digits).
pub open spec fn fixed_decimal(n: nat, w: nat) -> Seq<char>
    decreases w,
{
    if w == 0 {
        Seq::empty()
    } else {
        fixed_decimal(n / 10, (w - 1) as nat).push(digit_char(n % 10))
    }
}

/// A fixed-width decimal has exactly `w` digits.
pub proof fn lemma_fixed_decimal_len(n: nat, w: nat)
    ensures
        fixed_decimal(n, w).len() == w,
    decreases w,
{
    if w > 0 {
        lemma_fixed_decimal_len(n / 10, (w - 1) as nat);
    }
}

proof fn lemma_fixed_decimal_zero(w: nat)
    ensures
        fixed_decimal(0, w) == Seq::new(w, |i: int| '0'),
    decreases w,
{
    if w > 0 {
        lemma_fixed_decimal_zero((w - 1) as nat);
        assert(fixed_decimal(0, w) =~= Seq::new(w, |i: int| '0'));
    } else {
        assert(fixed_decimal(0, w) =~= Seq::new(w, |i: int| '0'));
    }
}

/// Zero-padding a number's decimal text to `w` digits writes it with
/// exactly `w` digits, when it has no more than that.
pub proof fn lemma_padded_decimal_is_fixed(n: nat, w: nat)
    requires
        w >= 1,
        n < pow10(w),
    ensures
        pad_left(decimal_text(n), w, '0') == fixed_decimal(n, w),
    decreases w,
{
    reveal_with_fuel(radix_text, 2);
    lemma_fixed_decimal_len(n, w);
    if n < 10 {
        assert(decimal_text(n) == seq![digit_char(n)]);
        lemma_fixed_decimal_zero((w - 1) as nat);
        assert(n / 10 == 0 && n % 10 == n);
        assert(pad_left(decimal_text(n), w, '0') =~= fixed_decimal(n, w));
    } else {
        assert(w >= 2) by {
            if w == 1 {
                assert(pow10(1) == 10 * pow10(0));
            }
        }
        assert(n / 10 < pow10((w - 1) as nat)) by (nonlinear_arith)
            requires
                n < pow10(w),
                pow10(w) == 10 * pow10((w - 1) as nat),
        ;
        lemma_padded_decimal_is_fixed(n / 10, (w - 1) as nat);
        let head = decimal_text(n / 10);
        assert(decimal_text(n) == head.push(digit_char(n % 10)));
        lemma_fixed_decimal_len(n / 10, (w - 1) as nat);
        assert(head.len() <= w - 1);
        assert(pad_left(decimal_text(n), w, '0') =~= pad_left(head, (w - 1) as nat, '0').push(
            digit_char(n % 10),
        ));
    }
}

/// Numbers written with the same number of digits sort as text in
/// numeric order.
pub proof fn lemma_fixed_decimal_order(a: nat, b: nat, w: nat)
    requires
        a < b < pow10(w),
    ensures
        lex_lt(fixed_decimal(a, w), fixed_decimal(b, w)),
    decreases w,
{
    if w == 0 {
        assert(pow10(0) == 1);
    } else {
        let qa = a / 10;
        let qb = b / 10;
        assert(qa <= qb && qb < pow10((w - 1) as nat)) by (nonlinear_arith)
            requires
                a < b < pow10(w),
                pow10(w) == 10 * pow10((w - 1) as nat),
                qa == a / 10,
                qb == b / 10,
        ;
        lemma_fixed_decimal_len(qa, (w - 1) as nat);
        lemma_fixed_decimal_len(qb, (w - 1) as nat);
        let pa = fixed_decimal(qa, (w - 1) as nat);
        let pb = fixed_decimal(qb, (w - 1) as nat);
        let da = digit_char(a % 10);
        let db = digit_char(b % 10);
        if qa < qb {
            lemma_fixed_decimal_order(qa, qb, (w - 1) as nat);
            lemma_lex_equal_length_extend(pa, pb, seq![da], seq![db]);
            assert(pa + seq![da] =~= pa.push(da));
            assert(pb + seq![db] =~= pb.push(db));
        } else {
            assert(a % 10 < b % 10) by (nonlinear_arith)
                requires
                    a < b,
                    a / 10 == b / 10,
            ;
            assert(da < db);
            lemma_lex_common_prefix(pa, seq![da], seq![db]);
            assert(pa + seq![da] =~= pa.push(da));
            assert(pa + seq![db] =~= pa.push(db));
        }
    }
}

/// `a` sorts strictly before `b`.
pub fn lex_less(a: &[char], b: &[char]) -> (r: bool)
    ensures
        r == lex_lt(a@, b@),
{
    let mut i: usize = 0;
    assert(a@.skip(0) == a@);
    assert(b@.skip(0) == b@);
    while i < a.len() && i < b.len()
        invariant
            i <= a@.len(),
            i <= b@.len(),
            lex_lt(a@, b@) == lex_lt(a@.skip(i as int), b@.skip(i as int)),
        decreases a@.len() - i,
    {
        let x = a[i];
        let y = b[i];
        if x < y {
            return true;
        }
        if x > y {
            return false;
        }
        assert(a@.skip(i as int).drop_first() == a@.skip(i + 1));
        assert(b@.skip(i as int).drop_first() == b@.skip(i + 1));
        i = i + 1;
    }
    i < b.len()
}

/// Unicode `White_Space` (what `char::is_whitespace` and `str::trim` use).
pub open spec fn is_space(c: char) -> bool {
    ('\u{9}' <= c <= '\u{d}') || c == ' ' || c == '\u{85}' || c == '\u{a0}' || c == '\u{1680}'
        || ('\u{2000}' <= c <= '\u{200a}') || c == '\u{2028}' || c == '\u{2029}' || c
        == '\u{202f}' || c == '\u{205f}' || c == '\u{3000}'
}

pub fn is_space_char(c: char) -> (r: bool)
    ensures
        r == is_space(c),
{
    ('\u{9}' <= c && c <= '\u{d}') || c == ' ' || c == '\u{85}' || c == '\u{a0}' || c == '\u{1680}'
        || ('\u{2000}' <= c && c <= '\u{200a}') || c == '\u{2028}' || c == '\u{2029}' || c
        == '\u{202f}' || c == '\u{205f}' || c == '\u{3000}'
}

/// `s` without leading white space.
pub open spec fn trim_start_spaces(s: Seq<char>) -> Seq<char>
    decreases s.len(),
{
    if s.len() > 0 && is_space(s[0]) {
        trim_start_spaces(s.drop_first())
    } else {
        s
    }
}

/// `s` without trailing white space.
pub open spec fn trim_end_spaces(s: Seq<char>) -> Seq<char>
    decreases s.len(),
{
    if s.len() > 0 && is_space(s.last()) {
        trim_end_spaces(s.drop_last())
    } else {
        s
    }
}

/// `str::trim`.
pub open spec fn trim_spaces(s: Seq<char>) -> Seq<char> {
    trim_end_spaces(trim_start_spaces(s))
}

/// `s.trim()`.
pub fn trim_chars(s: &[char]) -> (r: Vec<char>)
    ensures
        r@ == trim_spaces(s@),
{
    let n = s.len();
    let mut a: usize = 0;
    assert(s@.subrange(0, n as int) == s@);
    while a < n && is_space_char(s[a])
        invariant
            a <= n == s@.len(),
            trim_start_spaces(s@) == trim_start_spaces(s@.subrange(a as int, n as int)),
        decreases n - a,
    {
        assert(s@.subrange(a as int, n as int).drop_first() == s@.subrange(a + 1, n as int));
        a = a + 1;
    }
    let ghost lead = s@.subrange(a as int, n as int);
    let mut b: usize = n;
    while b > a && is_space_char(s[b - 1])
        invariant
            a <= b <= n == s@.len(),
            lead == s@.subrange(a as int, n as int),
            trim_end_spaces(lead) == trim_end_spaces(s@.subrange(a as int, b as int)),
        decreases b - a,
    {
        assert(s@.subrange(a as int, b as int).drop_last() == s@.subrange(a as int, b - 1));
        b = b - 1;
    }
    slice_chars(s, a, b)
}

/// The non-empty trimmed pieces of a comma-separated list.
pub open spec fn list_items(parts: Seq<Seq<char>>) -> Seq<Seq<char>>
    decreases parts.len(),
{
    if parts.len() == 0 {
        Seq::empty()
    } else {
        let front = list_items(parts.drop_last());
        let t = trim_spaces(parts.last());
        if t.len() == 0 {
            front
        } else {
            front.push(t)
        }
    }
}

/// `s.split(',').map(str::trim).filter(|s| !s.is_empty())`.
pub open spec fn comma_list(s: Seq<char>) -> Seq<Seq<char>> {
    list_items(split_on(s, ','))
}

/// The comma-separated names in `s`, trimmed, empty ones dropped.
pub fn split_comma_list(s: &str) -> (r: Vec<String>)
    ensures
        Seq::new(r@.len(), |i: int| r@[i]@) == comma_list(s@),
{
    let cs = chars_of(s);
    let parts = split_chars(&cs, ',');
    let mut r: Vec<String> = Vec::new();
    for i in 0..parts.len()
        invariant
            texts(parts@) == split_on(s@, ','),
            Seq::new(r@.len(), |k: int| r@[k]@) == list_items(texts(parts@).take(i as int)),
    {
        let ghost before = Seq::new(r@.len(), |k: int| r@[k]@);
        let ghost old_r = r@;
        assert(texts(parts@).take(i + 1).drop_last() =~= texts(parts@).take(i as int));
        assert(texts(parts@).take(i + 1).last() == parts@[i as int]@);
        let t = trim_chars(parts[i].as_slice());
        if t.len() > 0 {
            let st = string_of(&t);
            r.push(st);
            assert(r@ == old_r.push(st));
            assert(Seq::new(r@.len(), |k: int| r@[k]@) =~= before.push(t@));
        }
    }
    assert(texts(parts@).take(parts@.len() as int) =~= texts(parts@));
    r
}

/// The digit character for `d < base` (lower-case letters past 9).
pub open spec fn digit_char(d: nat) -> char {
    if d < 10 {
        (('0' as nat) + d) as char
    } else {
        (('a' as nat) + d - 10) as char
    }
}

/// `n` written in `base` (2..=16) without leading zeros ("0" for zero).
pub open spec fn radix_text(n: nat, base: nat) -> Seq<char>
    decreases n,
{
    if base < 2 || n < base {
        seq![digit_char(if base < 2 { 0 } else { n })]
    } else {
        proof {
            assert(n / base < n) by (nonlinear_arith)
                requires
                    base >= 2,
                    n >= base,
            ;
        }
        radix_text(n / base, base).push(digit_char(n % base))
    }
}

/// Decimal text of `n`.
pub open spec fn decimal_text(n: nat) -> Seq<char> {
    radix_text(n, 10)
}

/// Lower-case hexadecimal text of `n`.
pub open spec fn hex_text(n: nat) -> Seq<char> {
    radix_text(n, 16)
}

/// `s` left-padded with `fill` to at least `width` characters.
pub open spec fn pad_left(s: Seq<char>, width: nat, fill: char) -> Seq<char> {
    if s.len() >= width {
        s
    } else {
        Seq::new((width - s.len()) as nat, |i: int| fill) + s
    }
}

fn digit_of(d: u8) -> (c: char)
    requires
        d < 16,
    ensures
        c == digit_char(d as nat),
{
    if d < 10 {
        (0x30u8 + d) as char
    } else {
        (0x61u8 + d - 10) as char
    }
}

/// `n` written in `base`.
pub fn radix_chars(n: u128, base: u128) -> (r: Vec<char>)
    requires
        2 <= base <= 16,
    ensures
        r@ == radix_text(n as nat, base as nat),
    decreases n,
{
    if n < base {
        let mut v: Vec<char> = Vec::new();
        v.push(digit_of(n as u8));
        v
    } else {
        assert(n / base < n) by (nonlinear_arith)
            requires
                base >= 2,
                n >= base,
        ;
        let mut v = radix_chars(n / base, base);
        v.push(digit_of((n % base) as u8));
        v
    }
}

/// Decimal text of `n`.
pub fn decimal_chars(n: u128) -> (r: Vec<char>)
    ensures
        r@ == decimal_text(n as nat),
{
    radix_chars(n, 10)
}

/// `s` left-padded with `fill` to `width` characters.
pub fn pad_left_chars(s: &[char], width: usize, fill: char) -> (r: Vec<char>)
    ensures
        r@ == pad_left(s@, width as nat, fill),
{
    if s.len() >= width {
        return slice_chars(s, 0, s.len());
    }
    let k = width - s.len();
    let mut r: Vec<char> = Vec::new();
    for i in 0..k
        invariant
            r@ == Seq::new(i as nat, |j: int| fill),
    {
        r.push(fill);
        assert(r@ =~= Seq::new((i + 1) as nat, |j: int| fill));
    }
    extend_chars(&mut r, s);
    r
}


/// `s` right-padded with spaces to at least `width` characters (what
/// `{:<width}` prints).
pub open spec fn pad_right(s: Seq<char>, width: nat) -> Seq<char> {
    if s.len() >= width {
        s
    } else {
        s + Seq::new((width - s.len()) as nat, |i: int| ' ')
    }
}

/// Appends `s` right-padded with spaces to `width` characters.
pub fn extend_padded(v: &mut Vec<char>, s: &str, width: usize)
    ensures
        final(v)@ == old(v)@ + pad_right(s@, width as nat),
{
    let cs = chars_of(s);
    let ghost start = v@;
    extend_chars(v, &cs);
    if cs.len() < width {
        let k = width - cs.len();
        for i in 0..k
            invariant
                cs@ == s@,
                v@ == start + s@ + Seq::new(i as nat, |j: int| ' '),
        {
            v.push(' ');
            assert(v@ =~= start + s@ + Seq::new((i + 1) as nat, |j: int| ' '));
        }
    }
    assert(v@ =~= start + pad_right(s@, width as nat));
}

} // verus!
