//! Relay core for a multiplayer racing game: the datagram wire format and
//! the connection and match state machine that interprets it.
use crate::buffer::{discriminator_key, qualified_prefix, qualified_suffix};
use crate::text::{
    chars_of, extend, find, first_occurrence, first_occurrence_from, lemma_first_occurrence,
    occurs_at, string_of,
};
use vstd::prelude::*;

pub mod buffer;
pub mod data;
pub mod errors;
pub mod game;
pub mod guid;
pub mod headers;
pub mod server;
pub mod stream;
pub mod text;
pub mod wire;

verus! {

/// The low-order byte of `num`.
pub fn to_byte(num: usize) -> (byte: u8)
    ensures
        byte == num % 256,
{
    (num % 256) as u8
}

/// `json` with the value of its discriminator, where that is a name wrapped
/// in the qualifying prefix and suffix, replaced by the bare name, and every
/// other character unchanged; `json` itself where it has no discriminator
/// of that form. The value of the discriminator runs up to the next quote.
pub open spec fn unqualified(json: Seq<char>) -> Seq<char> {
    let opening = discriminator_key() + qualified_prefix();
    match first_occurrence(json, opening) {
        Some(i) => {
            let start = i + opening.len();
            match first_occurrence_from(json, seq!['"'], start) {
                Some(end) => if end - start >= qualified_suffix().len() && json.subrange(
                    end - qualified_suffix().len(),
                    end,
                ) == qualified_suffix() {
                    json.take(i + discriminator_key().len()) + json.subrange(
                        start,
                        end - qualified_suffix().len(),
                    ) + json.skip(end)
                } else {
                    json
                },
                None => json,
            }
        },
        None => json,
    }
}

/// Turns the textual form of a message as the peer writes it into the form
/// with a bare variant name in the discriminator. Nothing else changes.
pub fn oxidize(json: String) -> (result: String)
    ensures
        result@ == unqualified(json@),
{
    let text = chars_of(json.as_str());
    let key = chars_of("\"$type\":\"");
    let prefix = chars_of("SanicballCore.MatchMessages.");
    let suffix = chars_of(", SanicballCore");
    let mut opening: Vec<char> = Vec::new();
    extend(&mut opening, &key, 0, key.len());
    extend(&mut opening, &prefix, 0, prefix.len());
    let mut quote: Vec<char> = Vec::new();
    quote.push('"');
    proof {
        assert(key@.subrange(0, key@.len() as int) =~= key@);
        assert(prefix@.subrange(0, prefix@.len() as int) =~= prefix@);
        assert(opening@ =~= discriminator_key() + qualified_prefix());
        assert(quote@ =~= seq!['"']);
    }
    let len = text.len();
    let i = match find(&text, &opening, 0) {
        Some(i) => i,
        None => {
            return json;
        },
    };
    let start = i + opening.len();
    let end = match find(&text, &quote, start) {
        Some(end) => end,
        None => {
            return json;
        },
    };
    proof {
        lemma_first_occurrence(text@, quote@, start as int);
    }
    if end - start < suffix.len() {
        return json;
    }
    let cut = end - suffix.len();
    match find(&text, &suffix, cut) {
        Some(at) => {
            if at != cut {
                proof {
                    lemma_first_occurrence(text@, suffix@, cut as int);
                    assert(!occurs_at(text@, suffix@, cut as int));
                }
                return json;
            }
        },
        None => {
            proof {
                lemma_first_occurrence(text@, suffix@, cut as int);
                assert(!occurs_at(text@, suffix@, cut as int));
            }
            return json;
        },
    }
    proof {
        lemma_first_occurrence(text@, suffix@, cut as int);
    }
    let mut out: Vec<char> = Vec::new();
    extend(&mut out, &text, 0, i + key.len());
    extend(&mut out, &text, start, cut);
    extend(&mut out, &text, end, len);
    assert(out@ =~= text@.take(i + key@.len()) + text@.subrange(start as int, cut as int)
        + text@.skip(end as int));
    string_of(&out)
}

} // verus!
