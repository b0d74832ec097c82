//! Verified text utilities shared by the statement builders: joining string
//! lists, escaping raw payload bytes for a textual literal, and doubling
//! quotes inside string values.

use vstd::prelude::*;

verus! {

/// The characters of `parts` laid end to end with `sep` between neighbours.
pub open spec fn seq_join(parts: Seq<Seq<char>>, sep: Seq<char>) -> Seq<char>
    decreases parts.len(),
{
    if parts.len() == 0 {
        Seq::empty()
    } else if parts.len() == 1 {
        parts[0]
    } else {
        parts[0] + sep + seq_join(parts.drop_first(), sep)
    }
}

proof fn lemma_join_push(parts: Seq<Seq<char>>, sep: Seq<char>, last: Seq<char>)
    ensures
        seq_join(parts.push(last), sep) == if parts.len() == 0 {
            last
        } else {
            seq_join(parts, sep) + sep + last
        },
    decreases parts.len(),
{
    if parts.len() == 0 {
        assert(parts.push(last) =~= seq![last]);
        assert(seq_join(seq![last], sep) == last);
    } else if parts.len() == 1 {
        assert(parts.push(last).drop_first() =~= seq![last]);
        assert(seq_join(seq![last], sep) == last);
        assert(seq_join(parts.push(last), sep) == parts.push(last)[0] + sep + seq_join(
            parts.push(last).drop_first(),
            sep,
        ));
        assert(seq_join(parts.push(last), sep) =~= parts[0] + sep + last);
        assert(seq_join(parts, sep) == parts[0]);
    } else {
        assert(parts.push(last).drop_first() =~= parts.drop_first().push(last));
        lemma_join_push(parts.drop_first(), sep, last);
        assert(seq_join(parts, sep) + sep + last =~= parts[0] + sep + (seq_join(
            parts.drop_first(),
            sep,
        ) + sep + last));
    }
}

/// The views of a vector of strings.
pub open spec fn views_of(parts: Seq<String>) -> Seq<Seq<char>> {
    parts.map_values(|s: String| s@)
}

/// Joins `parts` with `sep` between neighbours.
pub fn join_strings(parts: &Vec<String>, sep: &str) -> (r: String)
    ensures
        r@ == seq_join(views_of(parts@), sep@),
{
    let mut out = String::new();
    let mut i: usize = 0;
    while i < parts.len()
        invariant
            i <= parts@.len(),
            out@ == seq_join(views_of(parts@.take(i as int)), sep@),
        decreases parts@.len() - i,
    {
        if i > 0 {
            out.append(sep);
        }
        out.append(parts[i].as_str());
        proof {
            let taken = views_of(parts@.take(i as int));
            lemma_join_push(taken, sep@, parts@[i as int]@);
            assert(views_of(parts@.take(i + 1)) =~= taken.push(parts@[i as int]@));
        }
        i = i + 1;
    }
    proof {
        assert(parts@.take(parts@.len() as int) =~= parts@);
    }
    out
}

/// The byte of the lower-case hexadecimal digit for `n` (`n < 16`).
pub open spec fn hex_digit(n: u8) -> u8 {
    if n < 10 {
        (48 + n) as u8
    } else {
        (87 + n) as u8
    }
}

/// The escaped form of one byte, following the standard ASCII escaping
/// rules: tab, carriage return, line feed, backslash and both quotes get a
/// backslash escape, printable ASCII stands for itself, and every other
/// byte becomes `\xNN` with lower-case digits.
pub open spec fn spec_escape_byte(b: u8) -> Seq<u8> {
    if b == 9 {
        seq![92u8, 116u8]
    } else if b == 13 {
        seq![92u8, 114u8]
    } else if b == 10 {
        seq![92u8, 110u8]
    } else if b == 92 {
        seq![92u8, 92u8]
    } else if b == 39 {
        seq![92u8, 39u8]
    } else if b == 34 {
        seq![92u8, 34u8]
    } else if 32 <= b && b <= 126 {
        seq![b]
    } else {
        seq![92u8, 120u8, hex_digit(b / 16), hex_digit(b % 16)]
    }
}

/// The escaped forms of all bytes of `bs`, concatenated.
pub open spec fn spec_escape_bytes(bs: Seq<u8>) -> Seq<u8>
    decreases bs.len(),
{
    if bs.len() == 0 {
        Seq::empty()
    } else {
        spec_escape_byte(bs[0]) + spec_escape_bytes(bs.drop_first())
    }
}

proof fn lemma_escape_bytes_push(bs: Seq<u8>, b: u8)
    ensures
        spec_escape_bytes(bs.push(b)) == spec_escape_bytes(bs) + spec_escape_byte(b),
    decreases bs.len(),
{
    if bs.len() == 0 {
        assert(bs.push(b) =~= seq![b]);
        assert(seq![b].drop_first() =~= Seq::<u8>::empty());
        assert(spec_escape_bytes(Seq::<u8>::empty()) =~= Seq::<u8>::empty());
        assert(spec_escape_bytes(seq![b]) =~= spec_escape_byte(b));
        assert(spec_escape_bytes(bs) + spec_escape_byte(b) =~= spec_escape_byte(b));
    } else {
        assert(bs.push(b).drop_first() =~= bs.drop_first().push(b));
        lemma_escape_bytes_push(bs.drop_first(), b);
        assert(spec_escape_byte(bs[0]) + (spec_escape_bytes(bs.drop_first()) + spec_escape_byte(b))
            =~= spec_escape_bytes(bs) + spec_escape_byte(b));
    }
}

/// The characters an ASCII byte sequence decodes to.
pub open spec fn ascii_chars_of(bs: Seq<u8>) -> Seq<char> {
    bs.map_values(|b: u8| b as char)
}

/// Relies on `String::from_utf8`: ASCII bytes are valid UTF-8 and decode to
/// exactly one character per byte, each the character of that byte.
#[verifier::external_body]
fn string_from_ascii(bytes: Vec<u8>) -> (r: String)
    requires
        forall|i: int| 0 <= i < bytes@.len() ==> bytes@[i] < 128,
    ensures
        r@ == ascii_chars_of(bytes@),
{
    match String::from_utf8(bytes) {
        Ok(s) => s,
        Err(_) => String::new(),
    }
}

/// Renders raw bytes as the text of their escaped ASCII form.
pub fn escape_bytes_string(bs: &[u8]) -> (r: String)
    ensures
        r@ == ascii_chars_of(spec_escape_bytes(bs@)),
{
    let mut acc: Vec<u8> = Vec::new();
    let mut i: usize = 0;
    while i < bs.len()
        invariant
            i <= bs@.len(),
            acc@ == spec_escape_bytes(bs@.take(i as int)),
            forall|j: int| 0 <= j < acc@.len() ==> acc@[j] < 128,
        decreases bs@.len() - i,
    {
        let b = bs[i];
        if b == 9 {
            acc.push(92);
            acc.push(116);
        } else if b == 13 {
            acc.push(92);
            acc.push(114);
        } else if b == 10 {
            acc.push(92);
            acc.push(110);
        } else if b == 92 {
            acc.push(92);
            acc.push(92);
        } else if b == 39 {
            acc.push(92);
            acc.push(39);
        } else if b == 34 {
            acc.push(92);
            acc.push(34);
        } else if 32 <= b && b <= 126 {
            acc.push(b);
        } else {
            acc.push(92);
            acc.push(120);
            let hi = b / 16;
            let lo = b % 16;
            acc.push(if hi < 10 { 48 + hi } else { 87 + hi });
            acc.push(if lo < 10 { 48 + lo } else { 87 + lo });
        }
        proof {
            lemma_escape_bytes_push(bs@.take(i as int), bs@[i as int]);
            assert(bs@.take(i + 1) =~= bs@.take(i as int).push(bs@[i as int]));
            assert(acc@ =~= spec_escape_bytes(bs@.take(i + 1)));
        }
        i = i + 1;
    }
    proof {
        assert(bs@.take(bs@.len() as int) =~= bs@);
    }
    string_from_ascii(acc)
}

/// The text of `s` with every single quote doubled, the standard way to
/// embed a string inside a quoted literal.
pub open spec fn spec_sql_escape(s: Seq<char>) -> Seq<char>
    decreases s.len(),
{
    if s.len() == 0 {
        Seq::empty()
    } else {
        (if s[0] == '\'' {
            seq!['\'', '\'']
        } else {
            seq![s[0]]
        }) + spec_sql_escape(s.drop_first())
    }
}

proof fn lemma_sql_escape_push(s: Seq<char>, c: char)
    ensures
        spec_sql_escape(s.push(c)) == spec_sql_escape(s) + (if c == '\'' {
            seq!['\'', '\'']
        } else {
            seq![c]
        }),
    decreases s.len(),
{
    let tail: Seq<char> = if c == '\'' {
        seq!['\'', '\'']
    } else {
        seq![c]
    };
    if s.len() == 0 {
        assert(s.push(c) =~= seq![c]);
        assert(seq![c].drop_first() =~= Seq::<char>::empty());
        assert(spec_sql_escape(Seq::<char>::empty()) =~= Seq::<char>::empty());
        assert(spec_sql_escape(seq![c]) =~= tail);
        assert(spec_sql_escape(s) + tail =~= tail);
    } else {
        assert(s.push(c).drop_first() =~= s.drop_first().push(c));
        lemma_sql_escape_push(s.drop_first(), c);
        assert(spec_sql_escape(s.push(c)) =~= spec_sql_escape(s) + tail);
    }
}

/// Doubles every single quote of `s`.
pub fn sql_escape(s: &str) -> (r: String)
    ensures
        r@ == spec_sql_escape(s@),
{
    let mut out = String::new();
    let n = s.unicode_len();
    let mut i: usize = 0;
    while i < n
        invariant
            i <= n,
            n == s@.len(),
            out@ == spec_sql_escape(s@.take(i as int)),
        decreases n - i,
    {
        let c = s.get_char(i);
        if c == '\'' {
            out.append("''");
            proof {
                reveal_strlit("''");
            }
        } else {
            let piece = s.substring_char(i, i + 1);
            out.append(piece);
            proof {
                assert(piece@ =~= seq![s@[i as int]]);
            }
        }
        proof {
            lemma_sql_escape_push(s@.take(i as int), s@[i as int]);
            assert(s@.take(i + 1) =~= s@.take(i as int).push(s@[i as int]));
            assert(out@ =~= spec_sql_escape(s@.take(i + 1)));
        }
        i = i + 1;
    }
    proof {
        assert(s@.take(s@.len() as int) =~= s@);
    }
    out
}

} // verus!
