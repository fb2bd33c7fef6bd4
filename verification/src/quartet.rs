//! `cs ls / get / set / rm` and `cs api`: query strings, the `ls` table,
//! and what `cs set` does once it knows whether the target exists.
use vstd::prelude::*;
use crate::http::{url_encode, url_encoded};
use crate::text::{
    chars_of, decimal_chars, decimal_text, eq_chars, extend_chars, extend_str, has_prefix,
    join_with, starts_with_chars, string_of, texts, trim_chars, trim_spaces,
};

verus! {

// ------------------------------------------------------------ queries
pub open spec fn pair_views(q: Seq<(String, String)>) -> Seq<(Seq<char>, Seq<char>)> {
    Seq::new(q.len(), |i: int| (q[i].0@, q[i].1@))
}

/// `k=v` parts, each side percent-encoded when `encode`.
pub open spec fn query_parts(q: Seq<(Seq<char>, Seq<char>)>, encode: bool) -> Seq<Seq<char>> {
    Seq::new(
        q.len(),
        |i: int|
            if encode {
                url_encoded(q[i].0) + "="@ + url_encoded(q[i].1)
            } else {
                q[i].0 + "="@ + q[i].1
            },
    )
}

/// `path?k=v&k=v…`, or `path` alone when there is no parameter.
pub open spec fn with_query(path: Seq<char>, q: Seq<(Seq<char>, Seq<char>)>, encode: bool) -> Seq<char> {
    if q.len() == 0 {
        path
    } else {
        path + "?"@ + join_with(query_parts(q, encode), "&"@)
    }
}

fn build_query(path: &str, query: &[(String, String)], encode: bool) -> (r: String)
    ensures
        r@ == with_query(path@, pair_views(query@), encode),
{
    if query.len() == 0 {
        return String::from_str(path);
    }
    let ghost qv = pair_views(query@);
    let mut parts: Vec<Vec<char>> = Vec::new();
    for i in 0..query.len()
        invariant
            qv == pair_views(query@),
            texts(parts@) == query_parts(qv, encode).take(i as int),
    {
        let mut part: Vec<char> = if encode {
            url_encode(query[i].0.as_str())
        } else {
            chars_of(query[i].0.as_str())
        };
        extend_str(&mut part, "=");
        if encode {
            let v = url_encode(query[i].1.as_str());
            extend_chars(&mut part, &v);
        } else {
            extend_str(&mut part, query[i].1.as_str());
        }
        let ghost old_parts = parts@;
        parts.push(part);
        assert(texts(parts@) =~= query_parts(qv, encode).take(i + 1)) by {
            assert(texts(old_parts).len() == old_parts.len());
            assert forall|j: int| 0 <= j < i implies texts(parts@)[j] == texts(old_parts)[j] by {}
        }
    }
    assert(query_parts(qv, encode).take(query@.len() as int) =~= query_parts(qv, encode));
    let sep = chars_of("&");
    let joined = crate::text::join_chars(&parts, &sep);
    let mut r = chars_of(path);
    extend_str(&mut r, "?");
    extend_chars(&mut r, &joined);
    string_of(&r)
}

/// `cs get`: the route with `--query` parameters appended, percent-encoded.
pub fn append_query(path: &str, query: &[(String, String)]) -> (r: String)
    ensures
        r@ == with_query(path@, pair_views(query@), true),
{
    build_query(path, query, true)
}

/// `cs api`: the route with `--query` parameters appended verbatim.
pub fn api_query_path(path: &str, query: &[(String, String)]) -> (r: String)
    ensures
        r@ == with_query(path@, pair_views(query@), false),
{
    build_query(path, query, false)
}

/// `s.split_once('=')`: the text before and after the first `=`.
pub open spec fn split_eq(s: Seq<char>) -> Option<(Seq<char>, Seq<char>)>
    decreases s.len(),
{
    if s.len() == 0 {
        None
    } else if s[0] == '=' {
        Some((Seq::empty(), s.drop_first()))
    } else {
        match split_eq(s.drop_first()) {
            Some(kv) => Some((seq![s[0]] + kv.0, kv.1)),
            None => None,
        }
    }
}

proof fn lemma_split_eq_at(s: Seq<char>, i: int)
    requires
        0 <= i <= s.len(),
        forall|j: int| 0 <= j < i ==> s[j] != '=',
    ensures
        i < s.len() && s[i] == '=' ==> split_eq(s) == Some((s.take(i), s.skip(i + 1))),
        i == s.len() ==> split_eq(s) is None,
    decreases i,
{
    if i > 0 {
        lemma_split_eq_at(s.drop_first(), i - 1);
        assert(s.drop_first().take(i - 1) =~= s.take(i).drop_first());
        assert(seq![s[0]] + s.take(i).drop_first() =~= s.take(i));
        if i < s.len() {
            assert(s.drop_first().skip(i) =~= s.skip(i + 1));
        }
    } else {
        assert(s.take(0) =~= Seq::<char>::empty());
        if s.len() > 0 {
            assert(s.skip(1) =~= s.drop_first());
        }
    }
}

/// The pairs of repeated `--query` arguments; the first argument without
/// `=` is the error.
pub open spec fn spec_parse_query(raw: Seq<Seq<char>>) -> Result<Seq<(Seq<char>, Seq<char>)>, Seq<char>>
    decreases raw.len(),
{
    if raw.len() == 0 {
        Ok(Seq::empty())
    } else {
        match split_eq(raw[0]) {
            None => Err(raw[0]),
            Some(kv) => match spec_parse_query(raw.drop_first()) {
                Ok(rest) => Ok(seq![kv] + rest),
                Err(e) => Err(e),
            },
        }
    }
}

pub open spec fn prepend_pairs(
    done: Seq<(Seq<char>, Seq<char>)>,
    r: Result<Seq<(Seq<char>, Seq<char>)>, Seq<char>>,
) -> Result<Seq<(Seq<char>, Seq<char>)>, Seq<char>> {
    match r {
        Ok(rest) => Ok(done + rest),
        Err(e) => Err(e),
    }
}

proof fn lemma_split_eq_rejoins(s: Seq<char>)
    ensures
        split_eq(s) matches Some(kv) ==> kv.0 + "="@ + kv.1 == s && !kv.0.contains('='),
        split_eq(s) is None <==> !s.contains('='),
    decreases s.len(),
{
    reveal_strlit("=");
    if s.len() > 0 {
        lemma_split_eq_rejoins(s.drop_first());
        if s[0] == '=' {
            assert(Seq::<char>::empty() + "="@ + s.drop_first() =~= s);
            assert(s.contains('='));
        } else {
            match split_eq(s.drop_first()) {
                Some(kv) => {
                    assert(kv.0 + "="@ + kv.1 == s.drop_first());
                    assert(seq![s[0]] + s.drop_first() =~= s);
                    assert(seq![s[0]] + kv.0 + "="@ + kv.1 =~= seq![s[0]] + (kv.0 + "="@ + kv.1));
                    assert(s[kv.0.len() + 1int] == '=');
                    if (seq![s[0]] + kv.0).contains('=') {
                        let i = choose|i: int| 0 <= i < (seq![s[0]] + kv.0).len() && (seq![s[0]] + kv.0)[i] == '=';
                        assert(kv.0[i - 1] == '=');
                    }
                },
                None => {
                    if s.contains('=') {
                        let i = choose|i: int| 0 <= i < s.len() && s[i] == '=';
                        assert(s.drop_first()[i - 1] == '=');
                    }
                },
            }
        }
    }
}

/// `--query` arguments split at their first `=`: every pair rejoins to its
/// argument, its key holds no `=`, and parsing fails exactly when some
/// argument has no `=` at all.
pub proof fn law_query_pairs_rejoin(raw: Seq<Seq<char>>)
    ensures
        spec_parse_query(raw) matches Ok(pairs) ==> pairs.len() == raw.len() && forall|i: int|
            0 <= i < raw.len() ==> #[trigger] pairs[i].0 + "="@ + pairs[i].1 == raw[i] && !pairs[i].0.contains('='),
        spec_parse_query(raw) is Err == exists|i: int| 0 <= i < raw.len() && !(#[trigger] raw[i]).contains('='),
    decreases raw.len(),
{
    if raw.len() > 0 {
        law_query_pairs_rejoin(raw.drop_first());
        lemma_split_eq_rejoins(raw[0]);
        if spec_parse_query(raw) is Ok {
            let pairs = spec_parse_query(raw)->Ok_0;
            let rest = spec_parse_query(raw.drop_first())->Ok_0;
            assert forall|i: int| 0 <= i < raw.len() implies #[trigger] pairs[i].0 + "="@ + pairs[i].1 == raw[i]
                && !pairs[i].0.contains('=') by {
                if i > 0 {
                    assert(pairs[i] == rest[i - 1]);
                    assert(raw[i] == raw.drop_first()[i - 1]);
                }
            }
        }
        if exists|i: int| 0 <= i < raw.len() && !(#[trigger] raw[i]).contains('=') {
            let i = choose|i: int| 0 <= i < raw.len() && !(#[trigger] raw[i]).contains('=');
            if i > 0 {
                assert(!raw.drop_first()[i - 1].contains('='));
            }
        }
        if spec_parse_query(raw.drop_first()) is Err {
            let i = choose|i: int| 0 <= i < raw.drop_first().len() && !(#[trigger] raw.drop_first()[i]).contains('=');
            assert(!raw[i + 1].contains('='));
        }
        if split_eq(raw[0]) is None {
            assert(!raw[0].contains('='));
        } else {
            assert(raw[0].contains('='));
            if exists|i: int| 0 <= i < raw.len() && !(#[trigger] raw[i]).contains('=') {
                let i = choose|i: int| 0 <= i < raw.len() && !(#[trigger] raw[i]).contains('=');
                assert(i > 0);
                assert(!(raw.drop_first()[i - 1]).contains('='));
            }
        }
    }
}

/// A `--query` argument without `=`.
pub struct QueryError {
    pub arg: String,
}

impl QueryError {
    pub open spec fn text(self) -> Seq<char> {
        "--query expects key=value, got `"@ + self.arg@ + "`"@
    }

    pub fn message(&self) -> (r: String)
        ensures
            r@ == self.text(),
    {
        let mut m = chars_of("--query expects key=value, got `");
        extend_str(&mut m, self.arg.as_str());
        extend_str(&mut m, "`");
        string_of(&m)
    }
}

fn split_once_eq(s: &str) -> (r: Option<(String, String)>)
    ensures
        match r {
            Some(kv) => split_eq(s@) == Some((kv.0@, kv.1@)),
            None => split_eq(s@) is None,
        },
{
    let cs = chars_of(s);
    let mut i: usize = 0;
    while i < cs.len()
        invariant
            cs@ == s@,
            i <= cs@.len(),
            forall|j: int| 0 <= j < i ==> cs@[j] != '=',
        decreases cs@.len() - i,
    {
        if cs[i] == '=' {
            let k = crate::text::slice_chars(&cs, 0, i);
            let v = crate::text::slice_chars(&cs, i + 1, cs.len());
            proof {
                lemma_split_eq_at(s@, i as int);
            }
            assert(k@ == s@.take(i as int));
            assert(v@ == s@.skip(i + 1));
            return Some((string_of(&k), string_of(&v)));
        }
        i = i + 1;
    }
    proof {
        lemma_split_eq_at(s@, i as int);
    }
    None
}

pub open spec fn result_pairs(r: Result<Vec<(String, String)>, QueryError>) -> Result<
    Seq<(Seq<char>, Seq<char>)>,
    Seq<char>,
> {
    match r {
        Ok(q) => Ok(pair_views(q@)),
        Err(e) => Err(e.arg@),
    }
}

/// `key=value` pairs of repeated `--query` arguments, each split at its
/// first `=`; the first argument without one is the error.
pub fn parse_query(raw: &[String]) -> (r: Result<Vec<(String, String)>, QueryError>)
    ensures
        result_pairs(r) == spec_parse_query(crate::history::string_views(raw@)),
{
    let ghost rv = crate::history::string_views(raw@);
    let mut out: Vec<(String, String)> = Vec::new();
    assert(rv.skip(0) =~= rv);
    assert(pair_views(out@) =~= Seq::<(Seq<char>, Seq<char>)>::empty());
    assert(Seq::<(Seq<char>, Seq<char>)>::empty() + Seq::<(Seq<char>, Seq<char>)>::empty() =~= Seq::<(Seq<char>, Seq<char>)>::empty());
    for i in 0..raw.len()
        invariant
            rv == crate::history::string_views(raw@),
            out@.len() == i,
            spec_parse_query(rv) == prepend_pairs(pair_views(out@), spec_parse_query(rv.skip(i as int))),
    {
        let ghost tail = rv.skip(i as int);
        assert(tail[0] == raw@[i as int]@);
        assert(tail.drop_first() =~= rv.skip(i + 1));
        match split_once_eq(raw[i].as_str()) {
            Some(kv) => {
                let ghost old_out = out@;
                out.push(kv);
                assert(pair_views(out@) =~= pair_views(old_out) + seq![(kv.0@, kv.1@)]);
                assert(spec_parse_query(rv) == prepend_pairs(pair_views(out@), spec_parse_query(rv.skip(i + 1)))) by {
                    match spec_parse_query(rv.skip(i + 1)) {
                        Ok(rest) => {
                            assert(pair_views(old_out) + (seq![(kv.0@, kv.1@)] + rest) =~= pair_views(out@) + rest);
                        },
                        Err(e) => {},
                    }
                }
            },
            None => {
                return Err(QueryError { arg: raw[i].clone() });
            },
        }
    }
    assert(rv.skip(raw@.len() as int) =~= Seq::<Seq<char>>::empty());
    assert(pair_views(out@) + Seq::<(Seq<char>, Seq<char>)>::empty() =~= pair_views(out@));
    Ok(out)
}

/// The `cs api` path must be absolute.
pub fn api_path_ok(path: &str) -> (r: bool)
    ensures
        r == (path@.len() > 0 && path@[0] == '/'),
{
    let cs = chars_of(path);
    cs.len() > 0 && cs[0] == '/'
}

// ------------------------------------------------------------ ls table
/// One row of the `cs ls` table: a name and its secondary column.
pub struct Row {
    pub name: String,
    pub info: String,
}

pub open spec fn row_views(rows: Seq<Row>) -> Seq<(Seq<char>, Seq<char>)> {
    Seq::new(rows.len(), |i: int| (rows[i].name@, rows[i].info@))
}

/// Rows whose name starts with `prefix` (all rows for an empty prefix).
pub open spec fn keep_prefixed(rows: Seq<(Seq<char>, Seq<char>)>, prefix: Seq<char>) -> Seq<
    (Seq<char>, Seq<char>),
> {
    rows.filter(|r: (Seq<char>, Seq<char>)| prefix.len() == 0 || has_prefix(r.0, prefix))
}

/// Keep the rows of a collection that match an `ls` prefix.
pub fn filter_rows(rows: Vec<Row>, prefix: &str) -> (r: Vec<Row>)
    ensures
        row_views(r@) == keep_prefixed(row_views(rows@), prefix@),
{
    let p = chars_of(prefix);
    let ghost all = row_views(rows@);
    let ghost pred = |r: (Seq<char>, Seq<char>)| prefix@.len() == 0 || has_prefix(r.0, prefix@);
    let mut out: Vec<Row> = Vec::new();
    let mut i: usize = 0;
    let n = rows.len();
    while i < n
        invariant
            i <= n == rows@.len(),
            all == row_views(rows@),
            p@ == prefix@,
            pred == (|r: (Seq<char>, Seq<char>)| prefix@.len() == 0 || has_prefix(r.0, prefix@)),
            row_views(out@) == all.take(i as int).filter(pred),
        decreases n - i,
    {
        let name = chars_of(rows[i].name.as_str());
        let keep = p.len() == 0 || starts_with_chars(&name, &p);
        assert(all.take(i + 1).drop_last() =~= all.take(i as int));
        assert(all.take(i + 1).last() == all[i as int]);
        reveal_with_fuel(Seq::filter, 1);
        if keep {
            let row = Row { name: rows[i].name.clone(), info: rows[i].info.clone() };
            let ghost old_out = out@;
            out.push(row);
            assert(row_views(out@) =~= row_views(old_out).push(all[i as int]));
        }
        i = i + 1;
    }
    assert(all.take(n as int) =~= all);
    out
}

/// Bytes of one character in UTF-8.
pub open spec fn utf8_width(c: char) -> nat {
    if (c as u32) < 0x80 {
        1
    } else if (c as u32) < 0x800 {
        2
    } else if (c as u32) < 0x1_0000 {
        3
    } else {
        4
    }
}

/// Byte length of a text in UTF-8 (what `str::len` counts).
pub open spec fn byte_len(s: Seq<char>) -> nat
    decreases s.len(),
{
    if s.len() == 0 {
        0
    } else {
        byte_len(s.drop_last()) + utf8_width(s.last())
    }
}

fn utf8_len(s: &str) -> (r: u128)
    ensures
        r == byte_len(s@),
{
    let cs = chars_of(s);
    let mut n: u128 = 0;
    for i in 0..cs.len()
        invariant
            cs@ == s@,
            n == byte_len(s@.take(i as int)),
            n <= 4 * i,
    {
        let c = cs[i] as u32;
        let w: u128 = if c < 0x80 {
            1
        } else if c < 0x800 {
            2
        } else if c < 0x1_0000 {
            3
        } else {
            4
        };
        assert(s@.take(i + 1).drop_last() =~= s@.take(i as int));
        assert(s@.take(i + 1).last() == cs@[i as int]);
        n = n + w;
    }
    assert(s@.take(s@.len() as int) =~= s@);
    n
}

/// Widest name, in bytes.
pub open spec fn name_width(rows: Seq<(Seq<char>, Seq<char>)>) -> nat
    decreases rows.len(),
{
    if rows.len() == 0 {
        0
    } else {
        let w = name_width(rows.drop_last());
        let b = byte_len(rows.last().0);
        if b > w {
            b
        } else {
            w
        }
    }
}

/// One table line: the name alone when the info is blank, else the name
/// padded with spaces to `width` characters, two spaces, the info.
pub open spec fn table_line(name: Seq<char>, info: Seq<char>, width: nat) -> Seq<char> {
    if trim_spaces(info).len() == 0 {
        name
    } else {
        let pad: nat = if name.len() < width {
            (width - name.len()) as nat
        } else {
            0
        };
        name + Seq::new(pad, |i: int| ' ') + "  "@ + info
    }
}

/// The lines `cs ls` prints for a non-empty table.
pub open spec fn table_lines(rows: Seq<(Seq<char>, Seq<char>)>) -> Seq<Seq<char>> {
    Seq::new(rows.len(), |i: int| table_line(rows[i].0, rows[i].1, name_width(rows)))
}

proof fn lemma_byte_len_covers_chars(s: Seq<char>)
    ensures
        byte_len(s) >= s.len(),
    decreases s.len(),
{
    if s.len() > 0 {
        lemma_byte_len_covers_chars(s.drop_last());
    }
}

proof fn lemma_name_width_covers(rows: Seq<(Seq<char>, Seq<char>)>)
    ensures
        forall|i: int| 0 <= i < rows.len() ==> byte_len(#[trigger] rows[i].0) <= name_width(rows),
    decreases rows.len(),
{
    if rows.len() > 0 {
        lemma_name_width_covers(rows.drop_last());
        assert forall|i: int| 0 <= i < rows.len() implies byte_len(#[trigger] rows[i].0) <= name_width(rows) by {
            if i < rows.len() - 1 {
                assert(rows[i] == rows.drop_last()[i]);
            }
        }
    }
}

/// The `ls` table is aligned: a row with a blank info column prints its
/// name alone; in every other line the name comes first and the info
/// starts at the same column, two characters past the widest name.
pub proof fn law_table_aligned(rows: Seq<(Seq<char>, Seq<char>)>)
    ensures
        table_lines(rows).len() == rows.len(),
        forall|i: int|
            0 <= i < rows.len() && trim_spaces(rows[i].1).len() == 0 ==> #[trigger] table_lines(rows)[i]
                == rows[i].0,
        forall|i: int|
            0 <= i < rows.len() && trim_spaces(rows[i].1).len() > 0 ==> {
                let line = #[trigger] table_lines(rows)[i];
                &&& line.len() == name_width(rows) + 2 + rows[i].1.len()
                &&& line.take(rows[i].0.len() as int) == rows[i].0
                &&& line.skip(name_width(rows) + 2int) == rows[i].1
            },
{
    lemma_name_width_covers(rows);
    assert forall|i: int| 0 <= i < rows.len() && trim_spaces(rows[i].1).len() > 0 implies {
        let line = #[trigger] table_lines(rows)[i];
        &&& line.len() == name_width(rows) + 2 + rows[i].1.len()
        &&& line.take(rows[i].0.len() as int) == rows[i].0
        &&& line.skip(name_width(rows) + 2int) == rows[i].1
    } by {
        let (name, info) = rows[i];
        let w = name_width(rows);
        lemma_byte_len_covers_chars(name);
        assert(name.len() <= w);
        let line = table_lines(rows)[i];
        reveal_strlit("  ");
        let pad: nat = if name.len() < w { (w - name.len()) as nat } else { 0 };
        let spaces = Seq::new(pad, |k: int| ' ');
        assert(line == name + spaces + "  "@ + info);
        assert(name.len() + pad == w);
        assert(line.len() == w + 2 + info.len());
        assert(line.take(name.len() as int) =~= name);
        assert forall|k: int| 0 <= k < info.len() implies line[w + 2 + k] == info[k] by {
            assert(line[w + 2 + k] == (name + spaces + "  "@ + info)[w + 2 + k]);
        }
        assert(line.skip(w + 2int) =~= info);
    }
}

/// Render rows as aligned lines.
pub fn render_table(rows: &[Row]) -> (r: Vec<String>)
    ensures
        crate::history::string_views(r@) == table_lines(row_views(rows@)),
{
    let ghost rv = row_views(rows@);
    let mut width: u128 = 0;
    for i in 0..rows.len()
        invariant
            rv == row_views(rows@),
            width == name_width(rv.take(i as int)),
    {
        let b = utf8_len(rows[i].name.as_str());
        assert(rv.take(i + 1).drop_last() =~= rv.take(i as int));
        assert(rv.take(i + 1).last() == rv[i as int]);
        if b > width {
            width = b;
        }
    }
    assert(rv.take(rows@.len() as int) =~= rv);
    let mut out: Vec<String> = Vec::new();
    for i in 0..rows.len()
        invariant
            rv == row_views(rows@),
            width == name_width(rv),
            crate::history::string_views(out@) == table_lines(rv).take(i as int),
    {
        let name = chars_of(rows[i].name.as_str());
        let info = chars_of(rows[i].info.as_str());
        let t = trim_chars(&info);
        let mut line = chars_of(rows[i].name.as_str());
        if t.len() > 0 {
            let pad: u128 = if (name.len() as u128) < width { width - name.len() as u128 } else { 0 };
            let mut k: u128 = 0;
            while k < pad
                invariant
                    k <= pad,
                    line@ == name@ + Seq::new(k as nat, |j: int| ' '),
                decreases pad - k,
            {
                line.push(' ');
                assert(line@ =~= name@ + Seq::new((k + 1) as nat, |j: int| ' '));
                k = k + 1;
            }
            extend_str(&mut line, "  ");
            extend_chars(&mut line, &info);
        }
        assert(line@ == table_line(rv[i as int].0, rv[i as int].1, width as nat));
        let s = string_of(&line);
        let ghost old_out = out@;
        out.push(s);
        assert(crate::history::string_views(old_out).len() == old_out.len());
        assert(old_out.len() == i);
        assert(out@ == old_out.push(s));
        assert forall|k: int| 0 <= k < i + 1 implies #[trigger] crate::history::string_views(out@)[k]
            == table_lines(rv).take(i + 1)[k] by {
            if k < i {
                assert(crate::history::string_views(old_out)[k] == table_lines(rv).take(i as int)[k]);
            }
        }
        assert(crate::history::string_views(out@) =~= table_lines(rv).take(i + 1));
    }
    assert(table_lines(rv).take(rows@.len() as int) =~= table_lines(rv));
    out
}

// ------------------------------------------------------------ ls rows
/// `* name` for the active project, `  name` for the others.
pub fn project_row(name: &str, active: &str, path: &str) -> (r: Row)
    ensures
        r.name@ == (if name@ == active@ { "* "@ } else { "  "@ }) + name@,
        r.info@ == path@,
{
    let n = chars_of(name);
    let a = chars_of(active);
    let mut m = if eq_chars(&n, &a) { chars_of("* ") } else { chars_of("  ") };
    extend_chars(&mut m, &n);
    Row { name: string_of(&m), info: String::from_str(path) }
}

/// Info column of a POU file: `language  type name` of its first
/// declaration, empty when it declares nothing.
pub fn pou_info(first_decl: Option<(&str, &str, &str)>) -> (r: String)
    ensures
        first_decl is None ==> r@.len() == 0,
        first_decl matches Some(d) ==> r@ == d.0@ + "  "@ + d.1@ + " "@ + d.2@,
{
    match first_decl {
        Some((language, pou_type, name)) => {
            let mut m = chars_of(language);
            extend_str(&mut m, "  ");
            extend_str(&mut m, pou_type);
            extend_str(&mut m, " ");
            extend_str(&mut m, name);
            string_of(&m)
        },
        None => String::new(),
    }
}

/// Info column of an HMI screen: `L<level>  title` (no level: `  title`).
pub fn hmi_info(level: Option<u64>, title: &str) -> (r: String)
    ensures
        r@ == (match level {
            Some(l) => "L"@ + decimal_text(l as nat),
            None => Seq::<char>::empty(),
        }) + "  "@ + title@,
{
    let mut m: Vec<char> = match level {
        Some(l) => {
            let mut v = chars_of("L");
            extend_chars(&mut v, &decimal_chars(l as u128));
            v
        },
        None => Vec::new(),
    };
    extend_str(&mut m, "  ");
    extend_str(&mut m, title);
    string_of(&m)
}

/// State column of a library: imported version and block count, or
/// `(not imported)`.
pub fn library_info(version: &str, imported: Option<(&str, u64)>) -> (r: String)
    ensures
        imported matches Some(x) ==> r@ == "v"@ + version@ + "  imported(v"@ + x.0@ + ", "@
            + decimal_text(x.1 as nat) + " blocks)"@,
        imported is None ==> r@ == "v"@ + version@ + "  (not imported)"@,
{
    let mut m = chars_of("v");
    extend_str(&mut m, version);
    match imported {
        Some((iv, files)) => {
            extend_str(&mut m, "  imported(v");
            extend_str(&mut m, iv);
            extend_str(&mut m, ", ");
            extend_chars(&mut m, &decimal_chars(files as u128));
            extend_str(&mut m, " blocks)");
        },
        None => {
            extend_str(&mut m, "  (not imported)");
        },
    }
    string_of(&m)
}

/// Two fields separated by two spaces (`protocol  title` of a catalog entry).
pub fn two_columns(a: &str, b: &str) -> (r: String)
    ensures
        r@ == a@ + "  "@ + b@,
{
    let mut m = chars_of(a);
    extend_str(&mut m, "  ");
    extend_str(&mut m, b);
    string_of(&m)
}

/// JSON-mode `ls` filter: an entry stays when the prefix is empty or its
/// path or name starts with it.
pub fn entry_matches(prefix: &str, path: &str, name: &str) -> (r: bool)
    ensures
        r == (prefix@.len() == 0 || has_prefix(path@, prefix@) || has_prefix(name@, prefix@)),
{
    let p = chars_of(prefix);
    p.len() == 0 || starts_with_chars(&chars_of(path), &p) || starts_with_chars(&chars_of(name), &p)
}

// ------------------------------------------------------------ cs set
/// Why `cs set` cannot proceed.
pub enum SetError {
    /// A single-document config needs a body.
    ConfigNeedsFrom { kind: String },
    /// A new POU needs its language, i.e. an extension on the path.
    PouMissingLanguage { slug: String },
    /// Replacing an existing POU needs new source.
    PouExists { slug: String },
    /// A new device needs its protocol.
    DeviceNeedsProtocol,
    /// A new edge needs its SSH host.
    EdgeNeedsHost,
    /// Replacing an existing document needs a body.
    DocExists { kind: String, name: String },
}

impl SetError {
    /// The message shown for the error.
    pub open spec fn text(self) -> Seq<char> {
        match self {
            SetError::ConfigNeedsFrom { kind } => "`cs set "@ + kind@
                + "` needs `--from <file|->` (JSON document)"@,
            SetError::PouMissingLanguage { slug } => "POU `"@ + slug@
                + "` doesn't exist — write the path with its extension so the language is known (e.g. `cs set pous/"@
                + slug@ + ".st` or `pous/"@ + slug@ + ".ld.json`)"@,
            SetError::PouExists { slug } => "POU `"@ + slug@
                + "` already exists — pass `--from <file|->` with the new source"@,
            SetError::DeviceNeedsProtocol => "creating a device needs its protocol — pass `--protocol modbus|ethercat|opcua|canopen` or include `protocol` in the JSON"@,
            SetError::EdgeNeedsHost => "creating an edge needs its SSH host — pass `--host user@box` or include `host` in the JSON"@,
            SetError::DocExists { kind, name } => "`"@ + kind@ + "/"@ + name@
                + "` already exists — pass `--from <file|->` to replace its config (get → edit → set)"@,
        }
    }

    /// Whether the error is a usage error (exit 2). A create body missing
    /// its protocol or host is reported as a plain failure instead.
    pub fn is_usage(&self) -> (r: bool)
        ensures
            r == !(self is DeviceNeedsProtocol || self is EdgeNeedsHost),
    {
        match self {
            SetError::DeviceNeedsProtocol | SetError::EdgeNeedsHost => false,
            _ => true,
        }
    }

    /// The message shown for the error.
    pub fn message(&self) -> (r: String)
        ensures
            r@ == self.text(),
    {
        let mut m: Vec<char> = Vec::new();
        match self {
            SetError::ConfigNeedsFrom { kind } => {
                extend_str(&mut m, "`cs set ");
                extend_str(&mut m, kind.as_str());
                extend_str(&mut m, "` needs `--from <file|->` (JSON document)");
            },
            SetError::PouMissingLanguage { slug } => {
                extend_str(&mut m, "POU `");
                extend_str(&mut m, slug.as_str());
                extend_str(
                    &mut m,
                    "` doesn't exist — write the path with its extension so the language is known (e.g. `cs set pous/",
                );
                extend_str(&mut m, slug.as_str());
                extend_str(&mut m, ".st` or `pous/");
                extend_str(&mut m, slug.as_str());
                extend_str(&mut m, ".ld.json`)");
            },
            SetError::PouExists { slug } => {
                extend_str(&mut m, "POU `");
                extend_str(&mut m, slug.as_str());
                extend_str(&mut m, "` already exists — pass `--from <file|->` with the new source");
            },
            SetError::DeviceNeedsProtocol => {
                extend_str(
                    &mut m,
                    "creating a device needs its protocol — pass `--protocol modbus|ethercat|opcua|canopen` or include `protocol` in the JSON",
                );
            },
            SetError::EdgeNeedsHost => {
                extend_str(
                    &mut m,
                    "creating an edge needs its SSH host — pass `--host user@box` or include `host` in the JSON",
                );
            },
            SetError::DocExists { kind, name } => {
                extend_str(&mut m, "`");
                extend_str(&mut m, kind.as_str());
                extend_str(&mut m, "/");
                extend_str(&mut m, name.as_str());
                extend_str(
                    &mut m,
                    "` already exists — pass `--from <file|->` to replace its config (get → edit → set)",
                );
            },
        }
        string_of(&m)
    }
}

/// What follows once the target is known to exist (or has been created).
#[derive(Clone, Copy, PartialEq, Eq, Debug, Structural)]
pub enum SetThen {
    /// Write the given body (source text or JSON) with PUT.
    PutBody,
    /// Nothing to write: read the freshly created resource back.
    ReadBack,
}

/// A single-document config write needs `--from`.
pub fn config_plan(kind: &str, has_from: bool) -> (r: Result<SetThen, SetError>)
    ensures
        has_from ==> r == Ok::<SetThen, SetError>(SetThen::PutBody),
        !has_from ==> (r matches Err(SetError::ConfigNeedsFrom { kind: k }) && k@ == kind@),
{
    if has_from {
        Ok(SetThen::PutBody)
    } else {
        Err(SetError::ConfigNeedsFrom { kind: String::from_str(kind) })
    }
}

/// The steps of `cs set pous/<slug>`: create first when missing (needs
/// the language), then write the source, or read the scaffold back when
/// there is no source and the POU was just created.
pub fn pou_plan(slug: &str, language: Option<&str>, exists: bool, has_from: bool) -> (r: Result<
    (Option<String>, SetThen),
    SetError,
>)
    ensures
        !exists && language is None ==> (r matches Err(SetError::PouMissingLanguage { slug: s })
            && s@ == slug@),
        !exists && language is Some ==> (r matches Ok((Some(l), t)) && l@ == language.unwrap()@
            && t == (if has_from { SetThen::PutBody } else { SetThen::ReadBack })),
        exists && has_from ==> (r matches Ok((None, t)) && t == SetThen::PutBody),
        exists && !has_from ==> (r matches Err(SetError::PouExists { slug: s }) && s@ == slug@),
{
    if !exists {
        match language {
            None => Err(SetError::PouMissingLanguage { slug: String::from_str(slug) }),
            Some(l) => Ok(
                (
                    Some(String::from_str(l)),
                    if has_from {
                        SetThen::PutBody
                    } else {
                        SetThen::ReadBack
                    },
                ),
            ),
        }
    } else if has_from {
        Ok((None, SetThen::PutBody))
    } else {
        Err(SetError::PouExists { slug: String::from_str(slug) })
    }
}

/// The create body of a missing document.
pub enum CreateBody {
    /// `{ "name", "protocol" }`
    Device { name: String, protocol: String },
    /// `{ "name", "host" }`
    Edge { name: String, host: String },
    /// `{ "path", "title" }`
    Screen { path: String, title: Option<String> },
}

/// The first of two optional texts.
pub open spec fn first_of(a: Option<&str>, b: Option<&str>) -> Option<Seq<char>> {
    match a {
        Some(x) => Some(x@),
        None => match b {
            Some(y) => Some(y@),
            None => None,
        },
    }
}

/// What POST creates a missing device / edge / screen: the protocol or
/// host comes from the flag, else from the document's own field.
pub fn create_body(
    kind: crate::resource::Kind,
    name: &str,
    protocol_arg: Option<&str>,
    host_arg: Option<&str>,
    title: Option<&str>,
    body_protocol: Option<&str>,
    body_host: Option<&str>,
) -> (r: Result<CreateBody, SetError>)
    requires
        kind == crate::resource::Kind::Devices || kind == crate::resource::Kind::Edges || kind
            == crate::resource::Kind::Hmi,
    ensures
        kind == crate::resource::Kind::Devices ==> match first_of(protocol_arg, body_protocol) {
            Some(p) => r matches Ok(CreateBody::Device { name: n, protocol: q }) && n@ == name@
                && q@ == p,
            None => r matches Err(SetError::DeviceNeedsProtocol),
        },
        kind == crate::resource::Kind::Edges ==> match first_of(host_arg, body_host) {
            Some(h) => r matches Ok(CreateBody::Edge { name: n, host: q }) && n@ == name@ && q@
                == h,
            None => r matches Err(SetError::EdgeNeedsHost),
        },
        kind == crate::resource::Kind::Hmi ==> (r matches Ok(CreateBody::Screen { path: p, title: t })
            && p@ == name@ && crate::resource::opt_text(t) == crate::resource::opt_str(title)),
{
    if kind == crate::resource::Kind::Devices {
        let p = match protocol_arg {
            Some(x) => Some(x),
            None => body_protocol,
        };
        match p {
            Some(x) => Ok(CreateBody::Device { name: String::from_str(name), protocol: String::from_str(x) }),
            None => Err(SetError::DeviceNeedsProtocol),
        }
    } else if kind == crate::resource::Kind::Edges {
        let h = match host_arg {
            Some(x) => Some(x),
            None => body_host,
        };
        match h {
            Some(x) => Ok(CreateBody::Edge { name: String::from_str(name), host: String::from_str(x) }),
            None => Err(SetError::EdgeNeedsHost),
        }
    } else {
        let t = match title {
            Some(x) => Some(String::from_str(x)),
            None => None,
        };
        Ok(CreateBody::Screen { path: String::from_str(name), title: t })
    }
}

/// After create-if-missing: PUT the body if there is one; with none, read a
/// just-created document back, and refuse to "replace" an existing one.
pub fn doc_then(kind: &str, name: &str, existed: bool, has_body: bool) -> (r: Result<SetThen, SetError>)
    ensures
        has_body ==> r == Ok::<SetThen, SetError>(SetThen::PutBody),
        !has_body && !existed ==> r == Ok::<SetThen, SetError>(SetThen::ReadBack),
        !has_body && existed ==> (r matches Err(SetError::DocExists { kind: k, name: n }) && k@
            == kind@ && n@ == name@),
{
    if has_body {
        Ok(SetThen::PutBody)
    } else if !existed {
        Ok(SetThen::ReadBack)
    } else {
        Err(SetError::DocExists { kind: String::from_str(kind), name: String::from_str(name) })
    }
}

} // verus!
