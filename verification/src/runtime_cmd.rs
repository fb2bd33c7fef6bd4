//! The online debug verbs of the CLI (`cs runtime …`, `cs run`): how a
//! human-typed value becomes the i32 the force/write wire expects, and
//! which route and body each verb sends.
//!
//! The runtime stores every variable — BOOL, INT, REAL, … — in a 32-bit
//! slot and the force/write endpoints take a raw `i32`. For REAL that i32
//! is the IEEE-754 bit pattern of the float, not its integer value.
use vstd::prelude::*;
use crate::http::{url_encode, url_encoded};
use crate::text::{chars_of, comma_list, eq_chars, eq_str, extend_chars, extend_str, split_comma_list, string_of};

verus! {

// ------------------------------------------------------------ integers
/// Every character is an ASCII digit, and there is at least one.
pub open spec fn all_digits(d: Seq<char>) -> bool {
    d.len() > 0 && forall|i: int| 0 <= i < d.len() ==> '0' <= #[trigger] d[i] <= '9'
}

/// The value of a run of decimal digits.
pub open spec fn digits_value(d: Seq<char>) -> nat
    decreases d.len(),
{
    if d.len() == 0 {
        0
    } else {
        digits_value(d.drop_last()) * 10 + ((d.last() as nat) - ('0' as nat)) as nat
    }
}

/// The integer a decimal text spells: an optional `+`/`-`, then one or
/// more ASCII digits (the grammar of Rust's integer `FromStr`).
pub open spec fn int_text_value(s: Seq<char>) -> Option<int> {
    if s.len() > 0 && (s[0] == '+' || s[0] == '-') {
        if all_digits(s.drop_first()) {
            Some(
                if s[0] == '-' {
                    -(digits_value(s.drop_first()) as int)
                } else {
                    digits_value(s.drop_first()) as int
                },
            )
        } else {
            None
        }
    } else if all_digits(s) {
        Some(digits_value(s) as int)
    } else {
        None
    }
}

/// `s.parse::<i64>()`: the spelled integer when it fits.
pub open spec fn parse_i64_spec(s: Seq<char>) -> Option<i64> {
    match int_text_value(s) {
        Some(v) => if i64::MIN <= v <= i64::MAX {
            Some(v as i64)
        } else {
            None
        },
        None => None,
    }
}

/// `s.parse::<i32>()`: the spelled integer when it fits.
pub open spec fn parse_i32_spec(s: Seq<char>) -> Option<i32> {
    match int_text_value(s) {
        Some(v) => if i32::MIN <= v <= i32::MAX {
            Some(v as i32)
        } else {
            None
        },
        None => None,
    }
}

const MAG_LIMIT: u128 = 0x8000_0000_0000_0000;

/// Magnitude of a digit run, or `None` once it exceeds 2^63.
fn digits_magnitude(d: &[char], from: usize) -> (r: Option<u128>)
    requires
        from <= d@.len(),
    ensures
        r matches Some(v) ==> all_digits(d@.skip(from as int)) && v == digits_value(
            d@.skip(from as int),
        ) && v <= MAG_LIMIT,
        r is None ==> !all_digits(d@.skip(from as int)) || digits_value(d@.skip(from as int))
            > MAG_LIMIT,
{
    let ghost ds = d@.skip(from as int);
    if from == d.len() {
        return None;
    }
    let mut acc: u128 = 0;
    let mut over = false;
    let mut i = from;
    while i < d.len()
        invariant
            from <= i <= d@.len(),
            ds == d@.skip(from as int),
            forall|j: int| 0 <= j < i - from ==> '0' <= #[trigger] ds[j] <= '9',
            !over ==> acc == digits_value(ds.take(i - from)) && acc <= MAG_LIMIT,
            over ==> digits_value(ds.take(i - from)) > MAG_LIMIT,
        decreases d@.len() - i,
    {
        let c = d[i];
        if !('0' <= c && c <= '9') {
            assert(ds[i - from] == c);
            return None;
        }
        let ghost pre = ds.take(i - from);
        assert(ds.take(i - from + 1).drop_last() =~= pre);
        assert(ds.take(i - from + 1).last() == c);
        let dig = (c as u32 - '0' as u32) as u128;
        if !over {
            let next = acc * 10 + dig;
            if next > MAG_LIMIT {
                over = true;
            } else {
                acc = next;
            }
        }
        i = i + 1;
    }
    assert(ds.take(ds.len() as int) =~= ds);
    if over {
        None
    } else {
        Some(acc)
    }
}

/// `s.parse::<i64>()`.
pub fn parse_i64(s: &[char]) -> (r: Option<i64>)
    ensures
        r == parse_i64_spec(s@),
{
    if s.len() > 0 && (s[0] == '+' || s[0] == '-') {
        match digits_magnitude(s, 1) {
            Some(m) => {
                assert(s@.skip(1) == s@.drop_first());
                if s[0] == '-' {
                    if m == MAG_LIMIT {
                        Some(i64::MIN)
                    } else {
                        Some(-(m as i64))
                    }
                } else if m < MAG_LIMIT {
                    Some(m as i64)
                } else {
                    None
                }
            },
            None => {
                assert(s@.skip(1) == s@.drop_first());
                None
            },
        }
    } else {
        match digits_magnitude(s, 0) {
            Some(m) => {
                assert(s@.skip(0) == s@);
                if m < MAG_LIMIT {
                    Some(m as i64)
                } else {
                    None
                }
            },
            None => {
                assert(s@.skip(0) == s@);
                None
            },
        }
    }
}

/// `s.parse::<i32>()`.
pub fn parse_i32(s: &[char]) -> (r: Option<i32>)
    ensures
        r == parse_i32_spec(s@),
{
    match parse_i64(s) {
        Some(v) => if -0x8000_0000 <= v && v <= 0x7fff_ffff {
            Some(v as i32)
        } else {
            None
        },
        None => {
            assert(parse_i32_spec(s@) is None);
            None
        },
    }
}

// ------------------------------------------------------------ packing
/// The low 32 bits of `n`, read as two's complement (`n as i32`).
pub open spec fn wrap_i32(n: int) -> int {
    let m = n % 0x1_0000_0000;
    if m >= 0x8000_0000 {
        m - 0x1_0000_0000
    } else {
        m
    }
}

/// A 32-bit pattern read as two's complement.
pub open spec fn bits_as_i32(b: u32) -> int {
    if b >= 0x8000_0000 {
        b - 0x1_0000_0000
    } else {
        b as int
    }
}

/// ASCII lower-casing of one character.
pub open spec fn ascii_lower(c: char) -> char {
    if 'A' <= c <= 'Z' {
        ((c as u32) + 32) as char
    } else {
        c
    }
}

/// `to_ascii_lowercase`.
pub open spec fn ascii_lower_text(s: Seq<char>) -> Seq<char> {
    Seq::new(s.len(), |i: int| ascii_lower(s[i]))
}

/// The IEC types whose values are written as plain integers.
pub open spec fn is_int_family(t: Seq<char>) -> bool {
    t == "INT"@ || t == "DINT"@ || t == "SINT"@ || t == "UINT"@ || t == "UDINT"@ || t == "USINT"@
        || t == "BYTE"@ || t == "WORD"@ || t == "DWORD"@
}

/// What the CLI tells the user besides the packed value.
#[derive(Clone, Copy, PartialEq, Eq, Debug, Structural)]
pub enum PackNote {
    /// Nothing to say: the type was known (or the value was TRUE/FALSE).
    Quiet,
    /// The runtime did not expose the type; REAL was guessed from the format.
    GuessedReal,
    /// The runtime did not expose the type; the INT family was assumed.
    AssumedInt,
}

/// Why a value could not be packed.
pub enum PackError {
    NotBool { raw: String },
    NotReal { raw: String },
    LrealTooWide,
    NotInteger { raw: String, int_type: String },
    UnknownType { raw: String, type_text: String },
    NotFloat { raw: String },
    NotI32 { raw: String },
}

/// A [`PackError`] with its texts as character sequences.
pub enum PackErrorView {
    NotBool { raw: Seq<char> },
    NotReal { raw: Seq<char> },
    LrealTooWide,
    NotInteger { raw: Seq<char>, int_type: Seq<char> },
    UnknownType { raw: Seq<char>, type_text: Seq<char> },
    NotFloat { raw: Seq<char> },
    NotI32 { raw: Seq<char> },
}

impl View for PackError {
    type V = PackErrorView;

    open spec fn view(&self) -> PackErrorView {
        match self {
            PackError::NotBool { raw } => PackErrorView::NotBool { raw: raw@ },
            PackError::NotReal { raw } => PackErrorView::NotReal { raw: raw@ },
            PackError::LrealTooWide => PackErrorView::LrealTooWide,
            PackError::NotInteger { raw, int_type } => PackErrorView::NotInteger {
                raw: raw@,
                int_type: int_type@,
            },
            PackError::UnknownType { raw, type_text } => PackErrorView::UnknownType {
                raw: raw@,
                type_text: type_text@,
            },
            PackError::NotFloat { raw } => PackErrorView::NotFloat { raw: raw@ },
            PackError::NotI32 { raw } => PackErrorView::NotI32 { raw: raw@ },
        }
    }
}

impl PackErrorView {
    /// The message shown for the error.
    pub open spec fn text(self) -> Seq<char> {
        match self {
            PackErrorView::NotBool { raw } => "value `"@ + raw
                + "` doesn't fit BOOL (expected TRUE/FALSE/1/0)"@,
            PackErrorView::NotReal { raw } => "value `"@ + raw
                + "` doesn't parse as REAL (32-bit float)"@,
            PackErrorView::LrealTooWide => "LREAL (64-bit float) doesn't fit the 32-bit force wire — use a REAL variable, or write the low 32 bits manually"@,
            PackErrorView::NotInteger { raw, int_type } => "value `"@ + raw
                + "` doesn't parse as integer for "@ + int_type,
            PackErrorView::UnknownType { raw, type_text } => "don't know how to encode value `"@ + raw
                + "` for type "@ + type_text + " (yet)"@,
            PackErrorView::NotFloat { raw } => "value `"@ + raw
                + "` looks like a float but doesn't parse as f32"@,
            PackErrorView::NotI32 { raw } => "value `"@ + raw
                + "` doesn't parse as i32; if you meant REAL, use `"@ + raw + ".0`"@,
        }
    }
}

impl PackError {
    /// The message shown for the error.
    pub fn message(&self) -> (r: String)
        ensures
            r@ == self@.text(),
    {
        let mut m: Vec<char> = Vec::new();
        match self {
            PackError::NotBool { raw } => {
                extend_str(&mut m, "value `");
                extend_str(&mut m, raw.as_str());
                extend_str(&mut m, "` doesn't fit BOOL (expected TRUE/FALSE/1/0)");
            },
            PackError::NotReal { raw } => {
                extend_str(&mut m, "value `");
                extend_str(&mut m, raw.as_str());
                extend_str(&mut m, "` doesn't parse as REAL (32-bit float)");
            },
            PackError::LrealTooWide => {
                extend_str(
                    &mut m,
                    "LREAL (64-bit float) doesn't fit the 32-bit force wire — use a REAL variable, or write the low 32 bits manually",
                );
            },
            PackError::NotInteger { raw, int_type } => {
                extend_str(&mut m, "value `");
                extend_str(&mut m, raw.as_str());
                extend_str(&mut m, "` doesn't parse as integer for ");
                extend_str(&mut m, int_type.as_str());
            },
            PackError::UnknownType { raw, type_text } => {
                extend_str(&mut m, "don't know how to encode value `");
                extend_str(&mut m, raw.as_str());
                extend_str(&mut m, "` for type ");
                extend_str(&mut m, type_text.as_str());
                extend_str(&mut m, " (yet)");
            },
            PackError::NotFloat { raw } => {
                extend_str(&mut m, "value `");
                extend_str(&mut m, raw.as_str());
                extend_str(&mut m, "` looks like a float but doesn't parse as f32");
            },
            PackError::NotI32 { raw } => {
                extend_str(&mut m, "value `");
                extend_str(&mut m, raw.as_str());
                extend_str(&mut m, "` doesn't parse as i32; if you meant REAL, use `");
                extend_str(&mut m, raw.as_str());
                extend_str(&mut m, ".0`");
            },
        }
        string_of(&m)
    }
}

/// The note printed beside a packed value whose type the runtime did not
/// expose (`None`: nothing to say).
pub fn pack_note_message(note: PackNote, name: &str) -> (r: Option<String>)
    ensures
        note == PackNote::Quiet ==> r is None,
        note == PackNote::GuessedReal ==> (r matches Some(m) && m@ == "note: runtime didn't expose `"@
            + name@ + "`'s type — guessed REAL from value format"@),
        note == PackNote::AssumedInt ==> (r matches Some(m) && m@ == "note: runtime didn't expose `"@
            + name@ + "`'s type — assumed INT family"@),
{
    match note {
        PackNote::Quiet => None,
        PackNote::GuessedReal => {
            let mut m = chars_of("note: runtime didn't expose `");
            extend_str(&mut m, name);
            extend_str(&mut m, "`'s type — guessed REAL from value format");
            Some(string_of(&m))
        },
        PackNote::AssumedInt => {
            let mut m = chars_of("note: runtime didn't expose `");
            extend_str(&mut m, name);
            extend_str(&mut m, "`'s type — assumed INT family");
            Some(string_of(&m))
        },
    }
}

pub open spec fn pack_result(r: Result<(i32, PackNote), PackError>) -> Result<
    (int, PackNote),
    PackErrorView,
> {
    match r {
        Ok((v, n)) => Ok((v as int, n)),
        Err(e) => Err(e@),
    }
}

/// The text looks like a float (holds `.`, `e` or `E`).
pub open spec fn looks_like_float(raw: Seq<char>) -> bool {
    raw.contains('.') || raw.contains('e') || raw.contains('E')
}

/// How a human value is bit-packed for the force/write wire, given the
/// variable's IEC type (`None`: unknown) and what `raw.parse::<f32>()`
/// gave (`real_bits`: the float's bit pattern, `None` if it does not
/// parse).
pub open spec fn spec_pack_value(var_type: Option<Seq<char>>, raw: Seq<char>, real_bits: Option<
    u32,
>) -> Result<(int, PackNote), PackErrorView> {
    let low = ascii_lower_text(raw);
    if low == "true"@ {
        Ok((1, PackNote::Quiet))
    } else if low == "false"@ {
        Ok((0, PackNote::Quiet))
    } else {
        match var_type {
            Some(t) => if t == "BOOL"@ {
                match parse_i32_spec(raw) {
                    Some(n) => Ok((if n != 0 { 1int } else { 0int }, PackNote::Quiet)),
                    None => Err(PackErrorView::NotBool { raw }),
                }
            } else if t == "REAL"@ {
                match real_bits {
                    Some(b) => Ok((bits_as_i32(b), PackNote::Quiet)),
                    None => Err(PackErrorView::NotReal { raw }),
                }
            } else if t == "LREAL"@ {
                Err(PackErrorView::LrealTooWide)
            } else if is_int_family(t) {
                match parse_i64_spec(raw) {
                    Some(n) => Ok((wrap_i32(n as int), PackNote::Quiet)),
                    None => Err(PackErrorView::NotInteger { raw, int_type: t }),
                }
            } else {
                Err(PackErrorView::UnknownType { raw, type_text: t })
            },
            None => if looks_like_float(raw) {
                match real_bits {
                    Some(b) => Ok((bits_as_i32(b), PackNote::GuessedReal)),
                    None => Err(PackErrorView::NotFloat { raw }),
                }
            } else {
                match parse_i32_spec(raw) {
                    Some(n) => Ok((n as int, PackNote::AssumedInt)),
                    None => Err(PackErrorView::NotI32 { raw }),
                }
            },
        }
    }
}

fn lower_chars(s: &[char]) -> (r: Vec<char>)
    ensures
        r@ == ascii_lower_text(s@),
{
    let mut r: Vec<char> = Vec::new();
    for i in 0..s.len()
        invariant
            r@ == ascii_lower_text(s@).take(i as int),
    {
        let c = s[i];
        let l = if 'A' <= c && c <= 'Z' {
            ((c as u8) + 32) as char
        } else {
            c
        };
        r.push(l);
        assert(r@ =~= ascii_lower_text(s@).take(i + 1));
    }
    assert(ascii_lower_text(s@).take(s@.len() as int) =~= ascii_lower_text(s@));
    r
}

fn pattern_as_i32(b: u32) -> (r: i32)
    ensures
        r as int == bits_as_i32(b),
{
    if b >= 0x8000_0000 {
        ((b as i64) - 0x1_0000_0000) as i32
    } else {
        b as i32
    }
}

fn truncate_i32(n: i64) -> (r: i32)
    ensures
        r as int == wrap_i32(n as int),
{
    let x: u128 = ((n as i128) + 0x8000_0000_0000_0000i128) as u128;
    let m: u128 = x % 0x1_0000_0000;
    proof {
        vstd::arithmetic::div_mod::lemma_mod_multiples_vanish(0x8000_0000, n as int, 0x1_0000_0000);
        assert(x as int == 0x1_0000_0000 * 0x8000_0000 + n);
    }
    if m >= 0x8000_0000 {
        ((m as i64) - 0x1_0000_0000) as i32
    } else {
        m as i32
    }
}

fn contains_char(s: &[char], c: char) -> (r: bool)
    ensures
        r == s@.contains(c),
{
    for i in 0..s.len()
        invariant
            forall|j: int| 0 <= j < i ==> s@[j] != c,
    {
        if s[i] == c {
            assert(s@[i as int] == c);
            return true;
        }
    }
    false
}

/// Bit-pack a human value into the i32 force/write wire (see
/// [`spec_pack_value`]).
pub fn pack_value(var_type: Option<&str>, raw: &str, real_bits: Option<u32>) -> (r: Result<
    (i32, PackNote),
    PackError,
>)
    ensures
        pack_result(r) == spec_pack_value(
            match var_type {
                Some(t) => Some(t@),
                None => None,
            },
            raw@,
            real_bits,
        ),
{
    let rc = chars_of(raw);
    let low = lower_chars(&rc);
    if eq_str(&low, "true") {
        return Ok((1, PackNote::Quiet));
    }
    if eq_str(&low, "false") {
        return Ok((0, PackNote::Quiet));
    }
    match var_type {
        Some(t) => {
            let tc = chars_of(t);
            if eq_str(&tc, "BOOL") {
                match parse_i32(&rc) {
                    Some(n) => Ok((if n != 0 { 1 } else { 0 }, PackNote::Quiet)),
                    None => Err(PackError::NotBool { raw: String::from_str(raw) }),
                }
            } else if eq_str(&tc, "REAL") {
                match real_bits {
                    Some(b) => Ok((pattern_as_i32(b), PackNote::Quiet)),
                    None => Err(PackError::NotReal { raw: String::from_str(raw) }),
                }
            } else if eq_str(&tc, "LREAL") {
                Err(PackError::LrealTooWide)
            } else if eq_str(&tc, "INT") || eq_str(&tc, "DINT") || eq_str(&tc, "SINT") || eq_str(
                &tc,
                "UINT",
            ) || eq_str(&tc, "UDINT") || eq_str(&tc, "USINT") || eq_str(&tc, "BYTE") || eq_str(
                &tc,
                "WORD",
            ) || eq_str(&tc, "DWORD") {
                match parse_i64(&rc) {
                    Some(n) => Ok((truncate_i32(n), PackNote::Quiet)),
                    None => Err(
                        PackError::NotInteger {
                            raw: String::from_str(raw),
                            int_type: String::from_str(t),
                        },
                    ),
                }
            } else {
                Err(
                    PackError::UnknownType {
                        raw: String::from_str(raw),
                        type_text: String::from_str(t),
                    },
                )
            }
        },
        None => {
            if contains_char(&rc, '.') || contains_char(&rc, 'e') || contains_char(&rc, 'E') {
                match real_bits {
                    Some(b) => Ok((pattern_as_i32(b), PackNote::GuessedReal)),
                    None => Err(PackError::NotFloat { raw: String::from_str(raw) }),
                }
            } else {
                match parse_i32(&rc) {
                    Some(n) => Ok((n, PackNote::AssumedInt)),
                    None => Err(PackError::NotI32 { raw: String::from_str(raw) }),
                }
            }
        },
    }
}

/// `TRUE` / `FALSE` (in any letter case) pack to 1 / 0 whatever the
/// variable's type — even REAL or an unknown type — with nothing to note.
pub proof fn law_bool_words_pack_to_0_1(var_type: Option<Seq<char>>, raw: Seq<char>, real_bits: Option<u32>)
    ensures
        ascii_lower_text(raw) == "true"@ ==> spec_pack_value(var_type, raw, real_bits) == Ok::<
            (int, PackNote),
            PackErrorView,
        >((1, PackNote::Quiet)),
        ascii_lower_text(raw) == "false"@ ==> spec_pack_value(var_type, raw, real_bits) == Ok::<
            (int, PackNote),
            PackErrorView,
        >((0, PackNote::Quiet)),
{
    reveal_strlit("true");
    reveal_strlit("false");
    assert("true"@.len() == 4 && "false"@.len() == 5);
    if ascii_lower_text(raw) == "false"@ {
        assert(ascii_lower_text(raw) != "true"@);
    }
}

/// A packed value always fits the 32-bit wire, and a BOOL variable only
/// ever receives 0 or 1.
pub proof fn law_packed_values_fit(var_type: Option<Seq<char>>, raw: Seq<char>, real_bits: Option<u32>)
    ensures
        spec_pack_value(var_type, raw, real_bits) matches Ok((v, _)) ==> i32::MIN <= v <= i32::MAX,
        var_type == Some("BOOL"@) ==> (spec_pack_value(var_type, raw, real_bits) matches Ok((v, _))
            ==> (v == 0 || v == 1)),
{
    let m = spec_pack_value(var_type, raw, real_bits);
    if let Ok((v, _)) = m {
        if let Some(n) = parse_i64_spec(raw) {
            let w = (n as int) % 0x1_0000_0000;
            assert(0 <= w < 0x1_0000_0000);
        }
    }
}

/// A decimal text never spells `TRUE` or `FALSE`.
proof fn lemma_integer_text_is_no_bool_word(raw: Seq<char>)
    requires
        int_text_value(raw) is Some,
    ensures
        ascii_lower_text(raw) != "true"@,
        ascii_lower_text(raw) != "false"@,
{
    reveal_strlit("true");
    reveal_strlit("false");
    assert("true"@[0] == 't' && "false"@[0] == 'f');
    assert(raw.len() > 0);
    if raw[0] != '+' && raw[0] != '-' {
        assert(all_digits(raw));
        assert('0' <= raw[0] <= '9');
    }
    assert(ascii_lower_text(raw)[0] == ascii_lower(raw[0]));
}

/// A value for an integer-typed variable (`INT`, `DINT`, `SINT`, `UINT`,
/// `UDINT`, `USINT`, `BYTE`, `WORD`, `DWORD`) is its decimal text read as
/// a 64-bit integer `n` and sent as the 32-bit wire value congruent to `n`
/// modulo 2^32, with nothing to note; a text that is not such an integer
/// (nor `TRUE`/`FALSE`) is refused as not an integer for that type.
pub proof fn law_integer_types_pack_wrapped(t: Seq<char>, raw: Seq<char>, real_bits: Option<u32>)
    requires
        t == "INT"@ || t == "DINT"@ || t == "SINT"@ || t == "UINT"@ || t == "UDINT"@ || t == "USINT"@
            || t == "BYTE"@ || t == "WORD"@ || t == "DWORD"@,
    ensures
        parse_i64_spec(raw) matches Some(n) ==> (spec_pack_value(Some(t), raw, real_bits) matches Ok(
            (v, note),
        ) && note == PackNote::Quiet && i32::MIN <= v <= i32::MAX && (v - n) % 0x1_0000_0000 == 0),
        parse_i64_spec(raw) is None && ascii_lower_text(raw) != "true"@ && ascii_lower_text(raw)
            != "false"@ ==> spec_pack_value(Some(t), raw, real_bits) == Err::<(int, PackNote), PackErrorView>(
            PackErrorView::NotInteger { raw, int_type: t },
        ),
{
    reveal_strlit("INT");
    assert("INT"@.len() == 3 && "INT"@[0] == 'I' && "INT"@[1] == 'N');
    reveal_strlit("DINT");
    assert("DINT"@.len() == 4 && "DINT"@[0] == 'D' && "DINT"@[1] == 'I');
    reveal_strlit("SINT");
    assert("SINT"@.len() == 4 && "SINT"@[0] == 'S' && "SINT"@[1] == 'I');
    reveal_strlit("UINT");
    assert("UINT"@.len() == 4 && "UINT"@[0] == 'U' && "UINT"@[1] == 'I');
    reveal_strlit("UDINT");
    assert("UDINT"@.len() == 5 && "UDINT"@[0] == 'U' && "UDINT"@[1] == 'D');
    reveal_strlit("USINT");
    assert("USINT"@.len() == 5 && "USINT"@[0] == 'U' && "USINT"@[1] == 'S');
    reveal_strlit("BYTE");
    assert("BYTE"@.len() == 4 && "BYTE"@[0] == 'B' && "BYTE"@[1] == 'Y');
    reveal_strlit("WORD");
    assert("WORD"@.len() == 4 && "WORD"@[0] == 'W' && "WORD"@[1] == 'O');
    reveal_strlit("DWORD");
    assert("DWORD"@.len() == 5 && "DWORD"@[0] == 'D' && "DWORD"@[1] == 'W');
    reveal_strlit("BOOL");
    assert("BOOL"@.len() == 4 && "BOOL"@[0] == 'B' && "BOOL"@[1] == 'O');
    reveal_strlit("REAL");
    assert("REAL"@.len() == 4 && "REAL"@[0] == 'R' && "REAL"@[1] == 'E');
    reveal_strlit("LREAL");
    assert("LREAL"@.len() == 5 && "LREAL"@[0] == 'L' && "LREAL"@[1] == 'R');
    if let Some(n) = parse_i64_spec(raw) {
        lemma_integer_text_is_no_bool_word(raw);
        let ni = n as int;
        let m = ni % 0x1_0000_0000;
        assert(0 <= m < 0x1_0000_0000 && (m - ni) % 0x1_0000_0000 == 0) by {
            vstd::arithmetic::div_mod::lemma_fundamental_div_mod(ni, 0x1_0000_0000);
            vstd::arithmetic::div_mod::lemma_mod_bound(ni, 0x1_0000_0000);
            vstd::arithmetic::div_mod::lemma_mod_multiples_basic(-(ni / 0x1_0000_0000), 0x1_0000_0000);
        }
        assert((m - 0x1_0000_0000 - ni) % 0x1_0000_0000 == 0) by {
            vstd::arithmetic::div_mod::lemma_fundamental_div_mod(ni, 0x1_0000_0000);
            vstd::arithmetic::div_mod::lemma_mod_multiples_basic(-(ni / 0x1_0000_0000) - 1, 0x1_0000_0000);
        }
    }
}

/// The other types, for a text that is not `TRUE`/`FALSE`: a `BOOL` takes
/// 1 for a non-zero 32-bit integer and 0 for zero (other texts are
/// refused); a `REAL` sends the parsed float's 32-bit pattern as is; an
/// `LREAL` is always refused as too wide for the wire; any type outside
/// BOOL, REAL, LREAL and the integer family is refused as unknown, naming
/// both the text and the type. With no type known, a text holding `.`,
/// `e` or `E` is sent as a float (noted as a guess), and any other text
/// that is a 32-bit integer is sent as that integer (noted as assumed).
pub proof fn law_other_types_pack(var_type: Option<Seq<char>>, raw: Seq<char>, real_bits: Option<u32>)
    requires
        ascii_lower_text(raw) != "true"@,
        ascii_lower_text(raw) != "false"@,
    ensures
        var_type == Some("BOOL"@) ==> (match parse_i32_spec(raw) {
            Some(n) => spec_pack_value(var_type, raw, real_bits) == Ok::<(int, PackNote), PackErrorView>(
                (if n == 0 { 0int } else { 1int }, PackNote::Quiet),
            ),
            None => spec_pack_value(var_type, raw, real_bits) == Err::<(int, PackNote), PackErrorView>(
                PackErrorView::NotBool { raw },
            ),
        }),
        var_type == Some("REAL"@) ==> (match real_bits {
            Some(b) => spec_pack_value(var_type, raw, real_bits) matches Ok((v, note)) && note
                == PackNote::Quiet && i32::MIN <= v <= i32::MAX && (v - b) % 0x1_0000_0000 == 0,
            None => spec_pack_value(var_type, raw, real_bits) == Err::<(int, PackNote), PackErrorView>(
                PackErrorView::NotReal { raw },
            ),
        }),
        var_type == Some("LREAL"@) ==> spec_pack_value(var_type, raw, real_bits) == Err::<
            (int, PackNote),
            PackErrorView,
        >(PackErrorView::LrealTooWide),
        (var_type matches Some(t) && t != "BOOL"@ && t != "REAL"@ && t != "LREAL"@ && t != "INT"@ && t
            != "DINT"@ && t != "SINT"@ && t != "UINT"@ && t != "UDINT"@ && t != "USINT"@ && t != "BYTE"@
            && t != "WORD"@ && t != "DWORD"@) ==> spec_pack_value(var_type, raw, real_bits) == Err::<
            (int, PackNote),
            PackErrorView,
        >(PackErrorView::UnknownType { raw, type_text: var_type.unwrap() }),
        (var_type is None && (raw.contains('.') || raw.contains('e') || raw.contains('E'))) ==> (
        match real_bits {
            Some(b) => spec_pack_value(var_type, raw, real_bits) matches Ok((v, note)) && note
                == PackNote::GuessedReal && (v - b) % 0x1_0000_0000 == 0,
            None => spec_pack_value(var_type, raw, real_bits) == Err::<(int, PackNote), PackErrorView>(
                PackErrorView::NotFloat { raw },
            ),
        }),
        (var_type is None && !raw.contains('.') && !raw.contains('e') && !raw.contains('E')) ==> (
        match parse_i32_spec(raw) {
            Some(n) => spec_pack_value(var_type, raw, real_bits) == Ok::<(int, PackNote), PackErrorView>(
                (n as int, PackNote::AssumedInt),
            ),
            None => spec_pack_value(var_type, raw, real_bits) == Err::<(int, PackNote), PackErrorView>(
                PackErrorView::NotI32 { raw },
            ),
        }),
{
    reveal_strlit("INT");
    assert("INT"@.len() == 3 && "INT"@[0] == 'I' && "INT"@[1] == 'N');
    reveal_strlit("DINT");
    assert("DINT"@.len() == 4 && "DINT"@[0] == 'D' && "DINT"@[1] == 'I');
    reveal_strlit("SINT");
    assert("SINT"@.len() == 4 && "SINT"@[0] == 'S' && "SINT"@[1] == 'I');
    reveal_strlit("UINT");
    assert("UINT"@.len() == 4 && "UINT"@[0] == 'U' && "UINT"@[1] == 'I');
    reveal_strlit("UDINT");
    assert("UDINT"@.len() == 5 && "UDINT"@[0] == 'U' && "UDINT"@[1] == 'D');
    reveal_strlit("USINT");
    assert("USINT"@.len() == 5 && "USINT"@[0] == 'U' && "USINT"@[1] == 'S');
    reveal_strlit("BYTE");
    assert("BYTE"@.len() == 4 && "BYTE"@[0] == 'B' && "BYTE"@[1] == 'Y');
    reveal_strlit("WORD");
    assert("WORD"@.len() == 4 && "WORD"@[0] == 'W' && "WORD"@[1] == 'O');
    reveal_strlit("DWORD");
    assert("DWORD"@.len() == 5 && "DWORD"@[0] == 'D' && "DWORD"@[1] == 'W');
    reveal_strlit("BOOL");
    assert("BOOL"@.len() == 4 && "BOOL"@[0] == 'B' && "BOOL"@[1] == 'O');
    reveal_strlit("REAL");
    assert("REAL"@.len() == 4 && "REAL"@[0] == 'R' && "REAL"@[1] == 'E');
    reveal_strlit("LREAL");
    assert("LREAL"@.len() == 5 && "LREAL"@[0] == 'L' && "LREAL"@[1] == 'R');
    if let Some(b) = real_bits {
        if b >= 0x8000_0000 {
            assert((b - 0x1_0000_0000 - b) % 0x1_0000_0000 == 0);
        } else {
            assert((b - b) % 0x1_0000_0000 == 0);
        }
    }
}

// ------------------------------------------------------------ routing
/// The online debug verbs, local or (with `edge`) against a deployed runtime.
pub enum RuntimeCmd {
    Pause { edge: Option<String> },
    Resume { edge: Option<String> },
    Step { cycles: u32, edge: Option<String> },
    Status { edge: Option<String> },
    Snapshot { vars: Option<String>, edge: Option<String> },
    Force { name: String, value: String, edge: Option<String> },
    Unforce { name: String, edge: Option<String> },
    Write { name: String, value: String, edge: Option<String> },
    Ack { id: String },
}

/// HTTP method of a request.
#[derive(Clone, Copy, PartialEq, Eq, Debug, Structural)]
pub enum Method {
    Get,
    Post,
    Delete,
}

/// The JSON body of a request.
pub enum WireBody {
    /// No body.
    Absent,
    /// `{}`
    Empty,
    /// `{ "cycles": n }`
    Cycles(u32),
    /// `{ "value": v }`
    Value(i32),
    /// `{ "name": n, "value": v }`
    NameValue(String, i32),
    /// `{ "name": n }`
    Name(String),
}

/// One request to the server.
pub struct ApiRequest {
    pub method: Method,
    pub path: String,
    pub body: WireBody,
}

/// A [`WireBody`] with its texts as character sequences.
pub enum WireBodyView {
    Absent,
    Empty,
    Cycles(u32),
    Value(i32),
    NameValue(Seq<char>, i32),
    Name(Seq<char>),
}

impl View for WireBody {
    type V = WireBodyView;

    open spec fn view(&self) -> WireBodyView {
        match self {
            WireBody::Absent => WireBodyView::Absent,
            WireBody::Empty => WireBodyView::Empty,
            WireBody::Cycles(n) => WireBodyView::Cycles(*n),
            WireBody::Value(v) => WireBodyView::Value(*v),
            WireBody::NameValue(n, v) => WireBodyView::NameValue(n@, *v),
            WireBody::Name(n) => WireBodyView::Name(n@),
        }
    }
}

/// `/api/edges/<edge>/runtime/<op>` or `/api/runtime/<op>`.
pub open spec fn op_path(edge: Option<Seq<char>>, op: Seq<char>) -> Seq<char> {
    match edge {
        Some(e) => "/api/edges/"@ + url_encoded(e) + "/runtime/"@ + op,
        None => "/api/runtime/"@ + op,
    }
}

/// Where status is read: the edge's proxied `/status`, or the local one.
pub open spec fn status_path(edge: Option<Seq<char>>) -> Seq<char> {
    match edge {
        Some(e) => "/api/edges/"@ + url_encoded(e) + "/status"@,
        None => "/api/runtime/status"@,
    }
}

/// Where a snapshot is read: the edge's `/status` (its `last_snapshot`),
/// or the local snapshot route.
pub open spec fn snapshot_path(edge: Option<Seq<char>>) -> Seq<char> {
    match edge {
        Some(e) => status_path(edge),
        None => "/api/runtime/snapshot"@,
    }
}

pub open spec fn opt_view(o: Option<String>) -> Option<Seq<char>> {
    match o {
        Some(s) => Some(s@),
        None => None,
    }
}

/// The request a debug verb sends; `encoded` is the packed value of a
/// force or write.
pub open spec fn spec_runtime_request(cmd: RuntimeCmd, encoded: i32) -> (Method, Seq<char>, WireBodyView) {
    match cmd {
        RuntimeCmd::Pause { edge } => (Method::Post, op_path(opt_view(edge), "pause"@), WireBodyView::Empty),
        RuntimeCmd::Resume { edge } => (Method::Post, op_path(opt_view(edge), "resume"@), WireBodyView::Empty),
        RuntimeCmd::Step { cycles, edge } => (
            Method::Post,
            op_path(opt_view(edge), "step"@),
            WireBodyView::Cycles(cycles),
        ),
        RuntimeCmd::Status { edge } => (Method::Get, status_path(opt_view(edge)), WireBodyView::Absent),
        RuntimeCmd::Snapshot { edge, .. } => (
            Method::Get,
            snapshot_path(opt_view(edge)),
            WireBodyView::Absent,
        ),
        RuntimeCmd::Force { name, edge, .. } => match edge {
            Some(e) => (Method::Post, op_path(Some(e@), "force"@), WireBodyView::NameValue(name@, encoded)),
            None => (
                Method::Post,
                "/api/runtime/forces/"@ + url_encoded(name@),
                WireBodyView::Value(encoded),
            ),
        },
        RuntimeCmd::Unforce { name, edge } => match edge {
            Some(e) => (Method::Post, op_path(Some(e@), "unforce"@), WireBodyView::Name(name@)),
            None => (Method::Delete, "/api/runtime/forces/"@ + url_encoded(name@), WireBodyView::Absent),
        },
        RuntimeCmd::Write { name, edge, .. } => match edge {
            Some(e) => (Method::Post, op_path(Some(e@), "write"@), WireBodyView::NameValue(name@, encoded)),
            None => (
                Method::Post,
                "/api/runtime/variables/"@ + url_encoded(name@),
                WireBodyView::Value(encoded),
            ),
        },
        RuntimeCmd::Ack { id } => (
            Method::Post,
            "/api/runtime/alarms/"@ + url_encoded(id@) + "/ack"@,
            WireBodyView::Empty,
        ),
    }
}

/// Locally, a write is a one-shot `POST /api/runtime/variables/<name>`
/// and a force a latched `POST /api/runtime/forces/<name>`, both carrying
/// `{ "value": v }`; an unforce deletes the very path the force posted
/// to, and a write never addresses the path of a force.
pub proof fn law_write_and_force_routes(name: String, value: String, other: String, encoded: i32)
    ensures
        spec_runtime_request(RuntimeCmd::Write { name: name, value: value, edge: None }, encoded) == (
            Method::Post,
            "/api/runtime/variables/"@ + url_encoded(name@),
            WireBodyView::Value(encoded),
        ),
        spec_runtime_request(RuntimeCmd::Force { name: name, value: other, edge: None }, encoded) == (
            Method::Post,
            "/api/runtime/forces/"@ + url_encoded(name@),
            WireBodyView::Value(encoded),
        ),
        spec_runtime_request(RuntimeCmd::Unforce { name: name, edge: None }, encoded).0 == Method::Delete,
        spec_runtime_request(RuntimeCmd::Unforce { name: name, edge: None }, encoded).1
            == spec_runtime_request(RuntimeCmd::Force { name: name, value: other, edge: None }, encoded).1,
        spec_runtime_request(RuntimeCmd::Write { name: name, value: value, edge: None }, encoded).1
            != spec_runtime_request(RuntimeCmd::Force { name: name, value: other, edge: None }, encoded).1,
{
    reveal_strlit("/api/runtime/variables/");
    reveal_strlit("/api/runtime/forces/");
    let w = spec_runtime_request(RuntimeCmd::Write { name: name, value: value, edge: None }, encoded).1;
    let f = spec_runtime_request(RuntimeCmd::Force { name: name, value: other, edge: None }, encoded).1;
    assert(w[13] == 'v');
    assert(f[13] == 'f');
}

/// Locally, `pause`, `resume` and `step` post to `/api/runtime/<verb>`
/// (`step` carrying its cycle count), status and snapshot are read from
/// `/api/runtime/status` and `/api/runtime/snapshot`, and an alarm is
/// acknowledged at `/api/runtime/alarms/<id>/ack`.
pub proof fn law_local_debug_routes(cycles: u32, vars: Option<String>, id: String, encoded: i32)
    ensures
        spec_runtime_request(RuntimeCmd::Pause { edge: None }, encoded) == (
            Method::Post,
            "/api/runtime/"@ + "pause"@,
            WireBodyView::Empty,
        ),
        spec_runtime_request(RuntimeCmd::Resume { edge: None }, encoded) == (
            Method::Post,
            "/api/runtime/"@ + "resume"@,
            WireBodyView::Empty,
        ),
        spec_runtime_request(RuntimeCmd::Step { cycles: cycles, edge: None }, encoded) == (
            Method::Post,
            "/api/runtime/"@ + "step"@,
            WireBodyView::Cycles(cycles),
        ),
        spec_runtime_request(RuntimeCmd::Status { edge: None }, encoded) == (
            Method::Get,
            "/api/runtime/status"@,
            WireBodyView::Absent,
        ),
        spec_runtime_request(RuntimeCmd::Snapshot { vars: vars, edge: None }, encoded) == (
            Method::Get,
            "/api/runtime/snapshot"@,
            WireBodyView::Absent,
        ),
        spec_runtime_request(RuntimeCmd::Ack { id: id }, encoded) == (
            Method::Post,
            "/api/runtime/alarms/"@ + url_encoded(id@) + "/ack"@,
            WireBodyView::Empty,
        ),
{
}

/// Against an edge, `pause`, `resume`, `step`, `force`, `unforce` and
/// `write` post to `/api/edges/<edge>/runtime/<verb>` (the variable's name
/// in the body), and status and snapshot are both read from
/// `/api/edges/<edge>/status`.
pub proof fn law_edge_debug_routes(name: String, value: String, e: String, cycles: u32, vars: Option<String>, encoded: i32)
    ensures
        spec_runtime_request(RuntimeCmd::Pause { edge: Some(e) }, encoded) == (
            Method::Post,
            "/api/edges/"@ + url_encoded(e@) + "/runtime/"@ + "pause"@,
            WireBodyView::Empty,
        ),
        spec_runtime_request(RuntimeCmd::Resume { edge: Some(e) }, encoded) == (
            Method::Post,
            "/api/edges/"@ + url_encoded(e@) + "/runtime/"@ + "resume"@,
            WireBodyView::Empty,
        ),
        spec_runtime_request(RuntimeCmd::Step { cycles: cycles, edge: Some(e) }, encoded) == (
            Method::Post,
            "/api/edges/"@ + url_encoded(e@) + "/runtime/"@ + "step"@,
            WireBodyView::Cycles(cycles),
        ),
        spec_runtime_request(RuntimeCmd::Force { name: name, value: value, edge: Some(e) }, encoded) == (
            Method::Post,
            "/api/edges/"@ + url_encoded(e@) + "/runtime/"@ + "force"@,
            WireBodyView::NameValue(name@, encoded),
        ),
        spec_runtime_request(RuntimeCmd::Unforce { name: name, edge: Some(e) }, encoded) == (
            Method::Post,
            "/api/edges/"@ + url_encoded(e@) + "/runtime/"@ + "unforce"@,
            WireBodyView::Name(name@),
        ),
        spec_runtime_request(RuntimeCmd::Write { name: name, value: value, edge: Some(e) }, encoded) == (
            Method::Post,
            "/api/edges/"@ + url_encoded(e@) + "/runtime/"@ + "write"@,
            WireBodyView::NameValue(name@, encoded),
        ),
        spec_runtime_request(RuntimeCmd::Status { edge: Some(e) }, encoded) == (
            Method::Get,
            "/api/edges/"@ + url_encoded(e@) + "/status"@,
            WireBodyView::Absent,
        ),
        spec_runtime_request(RuntimeCmd::Snapshot { vars: vars, edge: Some(e) }, encoded) == (
            Method::Get,
            "/api/edges/"@ + url_encoded(e@) + "/status"@,
            WireBodyView::Absent,
        ),
{
}

fn edge_op_path(edge: &Option<String>, op: &str) -> (r: Vec<char>)
    ensures
        r@ == op_path(opt_view(*edge), op@),
{
    match edge {
        Some(e) => {
            let mut p = chars_of("/api/edges/");
            let enc = url_encode(e.as_str());
            extend_chars(&mut p, &enc);
            extend_str(&mut p, "/runtime/");
            extend_str(&mut p, op);
            assert(p@ =~= "/api/edges/"@ + url_encoded(e@) + "/runtime/"@ + op@);
            p
        },
        None => {
            let mut p = chars_of("/api/runtime/");
            extend_str(&mut p, op);
            p
        },
    }
}

fn edge_status_path(edge: &Option<String>) -> (r: Vec<char>)
    ensures
        r@ == status_path(opt_view(*edge)),
{
    match edge {
        Some(e) => {
            let mut p = chars_of("/api/edges/");
            let enc = url_encode(e.as_str());
            extend_chars(&mut p, &enc);
            extend_str(&mut p, "/status");
            assert(p@ =~= "/api/edges/"@ + url_encoded(e@) + "/status"@);
            p
        },
        None => chars_of("/api/runtime/status"),
    }
}

fn name_path(prefix: &str, name: &String) -> (r: Vec<char>)
    ensures
        r@ == prefix@ + url_encoded(name@),
{
    let mut p = chars_of(prefix);
    let enc = url_encode(name.as_str());
    extend_chars(&mut p, &enc);
    p
}

fn named_path(prefix: &str, name: &String, suffix: &str) -> (r: Vec<char>)
    ensures
        r@ == prefix@ + url_encoded(name@) + suffix@,
{
    let mut p = chars_of(prefix);
    let enc = url_encode(name.as_str());
    extend_chars(&mut p, &enc);
    extend_str(&mut p, suffix);
    p
}

/// The request a debug verb sends (see [`spec_runtime_request`]).
pub fn runtime_request(cmd: &RuntimeCmd, encoded: i32) -> (r: ApiRequest)
    ensures
        (r.method, r.path@, r.body@) == spec_runtime_request(*cmd, encoded),
{
    match cmd {
        RuntimeCmd::Pause { edge } => ApiRequest {
            method: Method::Post,
            path: string_of(&edge_op_path(edge, "pause")),
            body: WireBody::Empty,
        },
        RuntimeCmd::Resume { edge } => ApiRequest {
            method: Method::Post,
            path: string_of(&edge_op_path(edge, "resume")),
            body: WireBody::Empty,
        },
        RuntimeCmd::Step { cycles, edge } => ApiRequest {
            method: Method::Post,
            path: string_of(&edge_op_path(edge, "step")),
            body: WireBody::Cycles(*cycles),
        },
        RuntimeCmd::Status { edge } => ApiRequest {
            method: Method::Get,
            path: string_of(&edge_status_path(edge)),
            body: WireBody::Absent,
        },
        RuntimeCmd::Snapshot { edge, .. } => {
            let p = match edge {
                Some(_) => edge_status_path(edge),
                None => chars_of("/api/runtime/snapshot"),
            };
            ApiRequest { method: Method::Get, path: string_of(&p), body: WireBody::Absent }
        },
        RuntimeCmd::Force { name, edge, .. } => match edge {
            Some(_) => ApiRequest {
                method: Method::Post,
                path: string_of(&edge_op_path(edge, "force")),
                body: WireBody::NameValue(name.clone(), encoded),
            },
            None => ApiRequest {
                method: Method::Post,
                path: string_of(&name_path("/api/runtime/forces/", name)),
                body: WireBody::Value(encoded),
            },
        },
        RuntimeCmd::Unforce { name, edge } => match edge {
            Some(_) => ApiRequest {
                method: Method::Post,
                path: string_of(&edge_op_path(edge, "unforce")),
                body: WireBody::Name(name.clone()),
            },
            None => ApiRequest {
                method: Method::Delete,
                path: string_of(&name_path("/api/runtime/forces/", name)),
                body: WireBody::Absent,
            },
        },
        RuntimeCmd::Write { name, edge, .. } => match edge {
            Some(_) => ApiRequest {
                method: Method::Post,
                path: string_of(&edge_op_path(edge, "write")),
                body: WireBody::NameValue(name.clone(), encoded),
            },
            None => ApiRequest {
                method: Method::Post,
                path: string_of(&name_path("/api/runtime/variables/", name)),
                body: WireBody::Value(encoded),
            },
        },
        RuntimeCmd::Ack { id } => ApiRequest {
            method: Method::Post,
            path: string_of(&named_path("/api/runtime/alarms/", id, "/ack")),
            body: WireBody::Empty,
        },
    }
}

// ------------------------------------------------------------ type lookup
/// One variable of a runtime snapshot: its name and IEC type (when the
/// snapshot carries one).
pub struct SnapshotVar {
    pub name: String,
    pub iec_type: Option<String>,
}

/// The type recorded for the first snapshot variable called `name`.
pub open spec fn spec_snapshot_var_type(vars: Seq<SnapshotVar>, name: Seq<char>) -> Option<Seq<char>>
    decreases vars.len(),
{
    if vars.len() == 0 {
        None
    } else if vars[0].name@ == name {
        opt_view(vars[0].iec_type)
    } else {
        spec_snapshot_var_type(vars.drop_first(), name)
    }
}

/// The IEC type of `name` in a snapshot (first variable of that name).
pub fn snapshot_var_type(vars: &[SnapshotVar], name: &str) -> (r: Option<String>)
    ensures
        opt_view(r) == spec_snapshot_var_type(vars@, name@),
{
    let nm = chars_of(name);
    let mut i: usize = 0;
    assert(vars@.skip(0) == vars@);
    while i < vars.len()
        invariant
            i <= vars@.len(),
            nm@ == name@,
            spec_snapshot_var_type(vars@, name@) == spec_snapshot_var_type(vars@.skip(i as int), name@),
        decreases vars@.len() - i,
    {
        let vn = chars_of(vars[i].name.as_str());
        assert(vars@.skip(i as int)[0] == vars@[i as int]);
        if crate::text::eq_chars(&vn, &nm) {
            return match &vars[i].iec_type {
                Some(t) => Some(t.clone()),
                None => None,
            };
        }
        assert(vars@.skip(i as int).drop_first() == vars@.skip(i + 1));
        i = i + 1;
    }
    None
}

/// Convert a human-typed value into the i32 the force/write wire expects,
/// type-aware via the runtime's snapshot (`vars`; `None` when no snapshot
/// could be read, which leaves the type unknown).
pub fn parse_value(vars: Option<&[SnapshotVar]>, name: &str, raw: &str, real_bits: Option<u32>) -> (r: Result<
    (i32, PackNote),
    PackError,
>)
    ensures
        pack_result(r) == spec_pack_value(
            match vars {
                Some(v) => spec_snapshot_var_type(v@, name@),
                None => None,
            },
            raw@,
            real_bits,
        ),
{
    let var_type = match vars {
        Some(v) => snapshot_var_type(v, name),
        None => None,
    };
    match &var_type {
        Some(t) => pack_value(Some(t.as_str()), raw, real_bits),
        None => pack_value(None, raw, real_bits),
    }
}

// ------------------------------------------------------------ status / snapshot
/// Whether the runtime runs: the status's own `running` flag, or — for an
/// edge status, which has none — whether its mode is `running`.
pub fn status_running(running: Option<bool>, mode_kind: Option<&str>) -> (r: bool)
    ensures
        r == (match running {
            Some(b) => b,
            None => opt_str_view(mode_kind) == Some("running"@),
        }),
{
    match running {
        Some(b) => b,
        None => match mode_kind {
            Some(k) => eq_str(&chars_of(k), "running"),
            None => false,
        },
    }
}

pub open spec fn opt_str_view(o: Option<&str>) -> Option<Seq<char>> {
    match o {
        Some(s) => Some(s@),
        None => None,
    }
}

/// Which snapshot variables a `--vars a,b` filter keeps: those whose name
/// is one of the listed (comma-separated, trimmed, empty ones ignored);
/// a variable without a name is dropped.
pub fn filter_snapshot(names: &[Option<String>], vars: &str) -> (keep: Vec<bool>)
    ensures
        keep@.len() == names@.len(),
        forall|i: int|
            0 <= i < names@.len() ==> #[trigger] keep@[i] == (match names@[i] {
                Some(n) => comma_list(vars@).contains(n@),
                None => false,
            }),
{
    let wanted = split_comma_list(vars);
    let ghost wv = Seq::new(wanted@.len(), |i: int| wanted@[i]@);
    let mut keep: Vec<bool> = Vec::new();
    for i in 0..names.len()
        invariant
            wv == Seq::new(wanted@.len(), |i: int| wanted@[i]@),
            wv == comma_list(vars@),
            keep@.len() == i,
            forall|k: int|
                0 <= k < i ==> #[trigger] keep@[k] == (match names@[k] {
                    Some(n) => comma_list(vars@).contains(n@),
                    None => false,
                }),
    {
        let k = match &names[i] {
            Some(n) => {
                let nc = chars_of(n.as_str());
                let mut found = false;
                for j in 0..wanted.len()
                    invariant
                        wv == Seq::new(wanted@.len(), |i: int| wanted@[i]@),
                        nc@ == n@,
                        found == (exists|q: int| 0 <= q < j && wv[q] == n@),
                {
                    let wc = chars_of(wanted[j].as_str());
                    if eq_chars(&wc, &nc) {
                        assert(wv[j as int] == n@);
                        found = true;
                    }
                }
                proof {
                    if found {
                        let q = choose|q: int| 0 <= q < wv.len() && wv[q] == n@;
                        assert(wv.contains(n@));
                    }
                    if wv.contains(n@) {
                        let q = choose|q: int| 0 <= q < wv.len() && wv[q] == n@;
                        assert(0 <= q < wanted@.len() && wv[q] == n@);
                    }
                }
                found
            },
            None => false,
        };
        keep.push(k);
    }
    keep
}

// ------------------------------------------------------------ cs run
/// What `cs run` asks the server to start.
pub enum RunPlan {
    /// Everything in tasks.toml.
    Project,
    /// One PROGRAM of the project.
    Isolated { program: String },
    /// One PROGRAM from a file outside the schedule (the file path is
    /// resolved to an absolute path before sending).
    IsolatedFile { program: String },
}

/// `--file` was given without `--program`.
pub enum RunError {
    FileWithoutProgram,
}

/// How `cs run [--program P] [--file F]` resolves.
pub fn plan_run(program: Option<&str>, has_file: bool) -> (r: Result<RunPlan, RunError>)
    ensures
        program is None && !has_file ==> r matches Ok(RunPlan::Project),
        program.is_some() && !has_file ==> (r matches Ok(RunPlan::Isolated { program: q })
            && q@ == program.unwrap()@),
        program.is_some() && has_file ==> (r matches Ok(RunPlan::IsolatedFile { program: q })
            && q@ == program.unwrap()@),
        program is None && has_file ==> r matches Err(RunError::FileWithoutProgram),
{
    match (program, has_file) {
        (None, false) => Ok(RunPlan::Project),
        (Some(p), false) => Ok(RunPlan::Isolated { program: String::from_str(p) }),
        (Some(p), true) => Ok(RunPlan::IsolatedFile { program: String::from_str(p) }),
        (None, true) => Err(RunError::FileWithoutProgram),
    }
}

impl RunError {
    pub fn message(&self) -> (r: &'static str)
        ensures
            r@ == "--file requires --program to name the PROGRAM inside it"@,
    {
        "--file requires --program to name the PROGRAM inside it"
    }
}

} // verus!
