//! Rendering a list of text pairs as a JSON object, through a `Builder`.

use crate::builder::{Builder, InvalidUtf8};
use vstd::prelude::*;
use vstd::utf8::{encode_utf8, encode_utf8_decode_utf8, encode_utf8_valid_utf8};

verus! {

/// The text that `{:?}` gives for a string: the string in double quotes, with
/// what cannot stand there as it is written as an escape.
pub uninterp spec fn debug_repr(text: Seq<char>) -> Seq<char>;

/// `format!` with `{:?}` on a string slice. The result is a function of the
/// text alone, and is named rather than spelled out.
#[verifier::external_body]
fn debug_quoted(text: &str) -> (quoted: String)
    ensures
        quoted@ == debug_repr(text@),
{
    format!("{:?}", text)
}

/// One member of an object: key and value with a colon between them, and a
/// comma behind unless it is the last.
pub open spec fn member(pair: (Seq<char>, Seq<char>), last: bool) -> Seq<char> {
    pair.0 + ":"@ + pair.1 + if last {
        ""@
    } else {
        ","@
    }
}

/// The first `upto` members of the object that holds `pairs`.
pub open spec fn members(pairs: Seq<(Seq<char>, Seq<char>)>, upto: int) -> Seq<char>
    decreases upto,
{
    if upto <= 0 {
        Seq::empty()
    } else {
        members(pairs, upto - 1) + member(pairs[upto - 1], upto == pairs.len())
    }
}

/// The object that holds `pairs`, whose keys and values are written as they
/// are given, in the order given.
pub open spec fn json_text(pairs: Seq<(Seq<char>, Seq<char>)>) -> Seq<char> {
    "{"@ + members(pairs, pairs.len() as int) + "}"@
}

/// Keys and values of `entries`, each in its quoted form.
pub open spec fn quoted_pairs(entries: Seq<(&str, &str)>) -> Seq<(Seq<char>, Seq<char>)> {
    Seq::new(entries.len(), |i: int| (debug_repr(entries[i].0@), debug_repr(entries[i].1@)))
}

/// The views of owned pairs.
pub open spec fn pair_views(pairs: Seq<(String, String)>) -> Seq<(Seq<char>, Seq<char>)> {
    Seq::new(pairs.len(), |i: int| (pairs[i].0@, pairs[i].1@))
}

/// Encoding a text piece by piece gives the encoding of the whole.
pub proof fn lemma_encode_utf8_concat(left: Seq<char>, right: Seq<char>)
    ensures
        encode_utf8(left + right) == encode_utf8(left) + encode_utf8(right),
    decreases left.len(),
{
    if left.len() == 0 {
        assert(left + right =~= right);
        assert(encode_utf8(left) + encode_utf8(right) =~= encode_utf8(right));
    } else {
        lemma_encode_utf8_concat(left.drop_first(), right);
        assert((left + right).drop_first() =~= left.drop_first() + right);
        assert(encode_utf8(left + right) =~= encode_utf8(left) + encode_utf8(right));
    }
}

/// Appends `text` to a builder that holds the encoding of `written`.
fn append_text(builder: &mut Builder, text: &str, Ghost(written): Ghost<Seq<char>>)
    requires
        old(builder)@ == encode_utf8(written),
    ensures
        final(builder)@ == encode_utf8(written + text@),
{
    builder.append(text);
    proof {
        lemma_encode_utf8_concat(written, text@);
    }
}

/// The JSON object whose members are `pairs`, keys and values written as
/// they stand: the caller has quoted them.
pub fn json_object(pairs: &[(String, String)]) -> (text: Result<String, InvalidUtf8>)
    ensures
        text matches Ok(object) && object@ == json_text(pair_views(pairs@)),
{
    let ghost views = pair_views(pairs@);
    let mut builder = Builder::default();
    append_text(&mut builder, "{", Ghost(Seq::empty()));
    assert(Seq::<char>::empty() + "{"@ =~= "{"@ + members(views, 0));
    let mut i: usize = 0;
    while i < pairs.len()
        invariant
            i <= pairs.len(),
            views == pair_views(pairs@),
            builder@ == encode_utf8("{"@ + members(views, i as int)),
        decreases pairs.len() - i,
    {
        let ghost before = "{"@ + members(views, i as int);
        let ghost pair = views[i as int];
        let last = i == pairs.len() - 1;
        append_text(&mut builder, pairs[i].0.as_str(), Ghost(before));
        append_text(&mut builder, ":", Ghost(before + pair.0));
        append_text(&mut builder, pairs[i].1.as_str(), Ghost(before + pair.0 + ":"@));
        append_text(
            &mut builder,
            if last {
                ""
            } else {
                ","
            },
            Ghost(before + pair.0 + ":"@ + pair.1),
        );
        assert(before + pair.0 + ":"@ + pair.1 + (if last {
            ""@
        } else {
            ","@
        }) =~= "{"@ + members(views, i + 1));
        i = i + 1;
    }
    append_text(&mut builder, "}", Ghost("{"@ + members(views, i as int)));
    proof {
        encode_utf8_valid_utf8(json_text(views));
        encode_utf8_decode_utf8(json_text(views));
    }
    builder.string()
}

/// The JSON object that maps each key of `entries` to its value, in the
/// order given. Keys and values are quoted as `{:?}` quotes a string.
pub fn to_json(entries: &[(&str, &str)]) -> (text: Result<String, InvalidUtf8>)
    ensures
        text matches Ok(object) && object@ == json_text(quoted_pairs(entries@)),
{
    let mut quoted: Vec<(String, String)> = Vec::with_capacity(entries.len());
    let mut i: usize = 0;
    while i < entries.len()
        invariant
            i <= entries.len(),
            quoted@.len() == i,
            forall|j: int|
                0 <= j < i ==> (#[trigger] quoted@[j]).0@ == debug_repr(entries@[j].0@)
                    && quoted@[j].1@ == debug_repr(entries@[j].1@),
        decreases entries.len() - i,
    {
        quoted.push((debug_quoted(entries[i].0), debug_quoted(entries[i].1)));
        i = i + 1;
    }
    assert(pair_views(quoted@) =~= quoted_pairs(entries@));
    json_object(quoted.as_slice())
}

} // verus!
