//! Destination handling: decoding an event's topic bytes into normalized
//! path segments, the event filter, and the destination table's name.

use vstd::prelude::*;

use crate::text::{ascii_chars_of, escape_bytes_string, join_strings, seq_join, spec_escape_bytes, views_of};

verus! {

/// What the slug crate produces for one path segment, with the underscore
/// separator: lower-cased alphanumeric runs joined by single underscores.
pub uninterp spec fn slug_of(s: Seq<char>) -> Seq<char>;

/// Relies on `slugify::slugify` with no stop words, `"_"` as the separator
/// and no maximum length: its result depends on the characters alone.
#[verifier::external_body]
fn slugify_part(s: &str) -> (r: String)
    ensures
        r@ == slug_of(s@),
{
    slugify::slugify(s, "", "_", None)
}

/// The slash-separated segments of a topic, empty segments kept.
pub open spec fn spec_split(bs: Seq<u8>) -> Seq<Seq<u8>>
    decreases bs.len(),
{
    if bs.len() == 0 {
        seq![Seq::empty()]
    } else if bs[0] == 47 {
        seq![Seq::<u8>::empty()] + spec_split(bs.drop_first())
    } else {
        let rest = spec_split(bs.drop_first());
        seq![seq![bs[0]] + rest[0]] + rest.drop_first()
    }
}

proof fn lemma_split_nonempty(bs: Seq<u8>)
    ensures
        spec_split(bs).len() >= 1,
    decreases bs.len(),
{
    if bs.len() != 0 {
        lemma_split_nonempty(bs.drop_first());
    }
}

/// The normalized parts of a topic: each slash-separated segment, decoded
/// to its escaped ASCII text and slugged.
pub open spec fn spec_topic_parts(bs: Seq<u8>) -> Seq<Seq<char>> {
    spec_split(bs).map_values(|seg: Seq<u8>| slug_of(ascii_chars_of(spec_escape_bytes(seg))))
}

/// Splits a topic's bytes on `/`, keeping empty segments.
fn split_topic(bs: &Vec<u8>) -> (r: Vec<Vec<u8>>)
    ensures
        r@.map_values(|v: Vec<u8>| v@) == spec_split(bs@),
{
    let mut done: Vec<Vec<u8>> = Vec::new();
    let mut cur: Vec<u8> = Vec::new();
    let mut i: usize = 0;
    proof {
        lemma_split_nonempty(bs@);
        assert(bs@.skip(0) =~= bs@);
        assert(spec_split(bs@) =~= done@.map_values(|v: Vec<u8>| v@) + (seq![cur@ + spec_split(
            bs@.skip(0),
        )[0]] + spec_split(bs@.skip(0)).drop_first()));
    }
    while i < bs.len()
        invariant
            i <= bs@.len(),
            spec_split(bs@) == done@.map_values(|v: Vec<u8>| v@) + (seq![cur@ + spec_split(
                bs@.skip(i as int),
            )[0]] + spec_split(bs@.skip(i as int)).drop_first()),
        decreases bs@.len() - i,
    {
        let ghost rest = spec_split(bs@.skip(i as int));
        let ghost rest2 = spec_split(bs@.skip(i + 1));
        proof {
            assert(bs@.skip(i as int)[0] == bs@[i as int]);
            assert(bs@.skip(i as int).drop_first() =~= bs@.skip(i + 1));
            lemma_split_nonempty(bs@.skip(i + 1));
        }
        let b = bs[i];
        if b == 47 {
            proof {
                assert(rest =~= seq![Seq::<u8>::empty()] + rest2);
                assert(rest[0] =~= Seq::<u8>::empty());
                assert(rest.drop_first() =~= rest2);
                assert(cur@ + rest[0] =~= cur@);
            }
            let ghost pre_done = done@;
            let ghost pre_cur = cur@;
            done.push(cur);
            cur = Vec::new();
            proof {
                assert(done@.map_values(|v: Vec<u8>| v@) =~= pre_done.map_values(
                    |v: Vec<u8>| v@,
                ).push(pre_cur));
                assert(rest2 =~= seq![rest2[0]] + rest2.drop_first());
                assert(pre_done.map_values(|v: Vec<u8>| v@) + (seq![pre_cur] + rest2)
                    =~= done@.map_values(|v: Vec<u8>| v@) + (seq![cur@ + rest2[0]]
                    + rest2.drop_first()));
            }
        } else {
            proof {
                assert(rest =~= seq![seq![bs@[i as int]] + rest2[0]] + rest2.drop_first());
                assert(rest[0] =~= seq![bs@[i as int]] + rest2[0]);
                assert(rest.drop_first() =~= rest2.drop_first());
            }
            let ghost pre_cur = cur@;
            cur.push(b);
            proof {
                assert(cur@ =~= pre_cur.push(bs@[i as int]));
                assert(pre_cur + (seq![bs@[i as int]] + rest2[0]) =~= cur@ + rest2[0]);
                assert(seq![pre_cur + rest[0]] + rest.drop_first() =~= seq![cur@ + rest2[0]]
                    + rest2.drop_first());
            }
        }
        i = i + 1;
    }
    proof {
        assert(bs@.skip(bs@.len() as int) =~= Seq::<u8>::empty());
        assert(spec_split(Seq::<u8>::empty()) =~= seq![Seq::<u8>::empty()]);
        assert(cur@ + Seq::<u8>::empty() =~= cur@);
    }
    let ghost pre_done = done@;
    let ghost last = cur@;
    done.push(cur);
    proof {
        assert(done@.map_values(|v: Vec<u8>| v@) =~= pre_done.map_values(|v: Vec<u8>| v@).push(
            last,
        ));
        assert(spec_split(bs@) =~= done@.map_values(|v: Vec<u8>| v@));
    }
    done
}

/// Normalizes a topic: splits its bytes on `/` and slugs each segment's
/// escaped ASCII text.
pub fn slugify_topic(topic: &Vec<u8>) -> (r: Vec<String>)
    ensures
        views_of(r@) == spec_topic_parts(topic@),
{
    let segments = split_topic(topic);
    let mut out: Vec<String> = Vec::new();
    let mut i: usize = 0;
    while i < segments.len()
        invariant
            i <= segments@.len(),
            segments@.map_values(|v: Vec<u8>| v@) == spec_split(topic@),
            views_of(out@) == spec_topic_parts(topic@).take(i as int),
        decreases segments@.len() - i,
    {
        let escaped = escape_bytes_string(segments[i].as_slice());
        let slug = slugify_part(escaped.as_str());
        let ghost pre = out@;
        out.push(slug);
        proof {
            assert(segments@.map_values(|v: Vec<u8>| v@)[i as int] == segments@[i as int]@);
            assert(spec_topic_parts(topic@)[i as int] == slug_of(ascii_chars_of(
                spec_escape_bytes(segments@[i as int]@),
            )));
            assert(views_of(out@) =~= views_of(pre).push(slug_of(ascii_chars_of(
                spec_escape_bytes(segments@[i as int]@),
            ))));
            assert(views_of(out@) =~= spec_topic_parts(topic@).take(i + 1));
        }
        i = i + 1;
    }
    proof {
        assert(spec_topic_parts(topic@).take(spec_topic_parts(topic@).len() as int)
            =~= spec_topic_parts(topic@));
    }
    out
}

/// Whether an event may be processed at all: duplicate deliveries and
/// retained messages are skipped, the destination must resolve to at least
/// two path segments, and the reserved control destinations — a second
/// segment `bridge` or a first segment `homeassistant` — are filtered out
/// entirely, with no store interaction.
pub open spec fn spec_accept(parts: Seq<Seq<char>>, dup: bool, retain: bool) -> bool {
    parts.len() >= 2 && parts[1] != "bridge"@ && parts[0] != "homeassistant"@ && !dup && !retain
}

/// Applies the event filter to normalized topic parts.
pub fn accept_event(parts: &Vec<String>, dup: bool, retain: bool) -> (r: bool)
    ensures
        r == spec_accept(views_of(parts@), dup, retain),
{
    if parts.len() < 2 || dup || retain {
        return false;
    }
    let bridge = String::from_str("bridge");
    let homeassistant = String::from_str("homeassistant");
    let second = &parts[1];
    let first = &parts[0];
    let r = *second != bridge && *first != homeassistant;
    proof {
        assert(views_of(parts@)[1] == parts@[1]@);
        assert(views_of(parts@)[0] == parts@[0]@);
    }
    r
}

/// The destination table's name: the topic's normalized parts joined with
/// underscores.
pub fn table_name(parts: &Vec<String>) -> (r: String)
    ensures
        r@ == seq_join(views_of(parts@), "_"@),
{
    join_strings(parts, "_")
}

} // verus!
