//! What the texts that describe a coordinate reference system say of it.

use vstd::prelude::*;

verus! {

/// The text in lower case.
pub uninterp spec fn lowercased(text: Seq<char>) -> Seq<char>;

/// Whether `part` occurs in `whole` as a run of characters.
pub open spec fn is_infix(part: Seq<char>, whole: Seq<char>) -> bool {
    exists|i: int|
        0 <= i <= whole.len() - part.len() && #[trigger] whole.subrange(i, i + part.len())
            == part
}

/// `str::to_lowercase`: the text in lower case.
#[verifier::external_body]
pub(crate) fn lowercase(text: &str) -> (r: String)
    ensures
        r@ == lowercased(text@),
{
    text.to_lowercase()
}

/// `str::contains` with a text as its pattern: whether the pattern occurs in
/// the text.
#[verifier::external_body]
pub(crate) fn contains_text(whole: &str, part: &str) -> (r: bool)
    ensures
        r == is_infix(part@, whole@),
{
    whole.contains(part)
}

/// A definition names the longitude and latitude projection.
pub open spec fn names_longlat(definition: Seq<char>) -> bool {
    is_infix("+proj=longlat"@, lowercased(definition)) || is_infix(
        "proj=longlat"@,
        lowercased(definition),
    )
}

/// A definition calls the system geographic or geodetic.
pub open spec fn names_geographic(definition: Seq<char>) -> bool {
    is_infix("geographic"@, lowercased(definition)) || is_infix(
        "geodetic"@,
        lowercased(definition),
    )
}

/// Whether the texts describe a geographic system: the short definition
/// names the longitude and latitude projection or calls the system
/// geographic, or the full definition names that projection, or the JSON
/// form has a geographic system.
pub open spec fn describes_geographic(
    definition: Option<Seq<char>>,
    full_definition: Option<Seq<char>>,
    projjson: Option<Seq<char>>,
) -> bool {
    ||| definition matches Some(d) && (names_longlat(d) || names_geographic(d))
    ||| full_definition matches Some(d) && names_longlat(d)
    ||| projjson matches Some(j) && is_infix("GeographicCRS"@, j)
}

/// A text that may be absent, as a plain value.
pub open spec fn str_view(text: Option<&str>) -> Option<Seq<char>> {
    match text {
        Some(s) => Some(s@),
        None => None,
    }
}

/// Whether a definition names the longitude and latitude projection.
fn has_longlat(definition: &str) -> (r: bool)
    ensures
        r == names_longlat(definition@),
{
    let lower = lowercase(definition);
    contains_text(lower.as_str(), "+proj=longlat") || contains_text(
        lower.as_str(),
        "proj=longlat",
    )
}

/// Whether the texts that describe a coordinate reference system say that it
/// is geographic. Each text may be absent.
pub fn is_geographic_from(
    definition: Option<&str>,
    full_definition: Option<&str>,
    projjson: Option<&str>,
) -> (r: bool)
    ensures
        r == describes_geographic(
            str_view(definition),
            str_view(full_definition),
            str_view(projjson),
        ),
{
    if let Some(def) = definition {
        if has_longlat(def) {
            return true;
        }
        let lower = lowercase(def);
        if contains_text(lower.as_str(), "geographic") || contains_text(
            lower.as_str(),
            "geodetic",
        ) {
            return true;
        }
    }
    if let Some(full_def) = full_definition {
        if has_longlat(full_def) {
            return true;
        }
    }
    if let Some(json) = projjson {
        if contains_text(json, "GeographicCRS") {
            return true;
        }
    }
    false
}

/// The text that defines a coordinate reference system: its definition where
/// that is not empty, else its description.
pub fn crs_definition_from(definition: Option<String>, description: Option<String>) -> (r: Option<
    String,
>)
    ensures
        r == (match definition {
            Some(d) => if d@.len() > 0 {
                Some(d)
            } else {
                description
            },
            None => description,
        }),
{
    match definition {
        Some(def) => {
            if def.as_str().unicode_len() > 0 {
                Some(def)
            } else {
                description
            }
        },
        None => description,
    }
}

/// Texts with a blank between each two of them.
pub open spec fn words_joined(words: Seq<Seq<char>>) -> Seq<char>
    decreases words.len(),
{
    if words.len() == 0 {
        Seq::empty()
    } else if words.len() == 1 {
        words[0]
    } else {
        words_joined(words.drop_last()) + " "@ + words.last()
    }
}

/// The first position below `limit` at which the list holds `true`, or
/// `limit` where there is none.
pub open spec fn first_accepted(accepted: Seq<bool>, limit: int, from: int) -> int
    decreases limit - from,
{
    if from >= limit {
        limit
    } else if 0 <= from < accepted.len() && accepted[from] {
        from
    } else {
        first_accepted(accepted, limit, from + 1)
    }
}

/// The words of a list as plain values.
pub open spec fn words_view(words: Seq<String>) -> Seq<Seq<char>> {
    words.map_values(|w: String| w@)
}

/// The description and the reference system that the first line of a mesh
/// file gives. A line that is accepted as a reference system as a whole is
/// one, and leaves no description. Else the longest run of last words that
/// is accepted is the reference system, and the words before it are the
/// description. Where no run is accepted, the line is the description.
pub open spec fn split_first_line(
    line: Seq<char>,
    words: Seq<Seq<char>>,
    whole_accepted: bool,
    accepted: Seq<bool>,
) -> (Seq<char>, Option<Seq<char>>) {
    let at = first_accepted(accepted, words.len() as int, 0);
    if whole_accepted {
        (Seq::empty(), Some(line))
    } else if at < words.len() {
        (words_joined(words.take(at)), Some(words_joined(words.skip(at))))
    } else {
        (line, None)
    }
}

/// Joins the words from `from` up to `to` with blanks.
fn join_words(words: &Vec<String>, from: usize, to: usize) -> (r: String)
    requires
        from <= to <= words.len(),
    ensures
        r@ == words_joined(words_view(words@).subrange(from as int, to as int)),
{
    let ghost all = words_view(words@);
    let mut out = String::new();
    let mut i: usize = from;
    assert(all.subrange(from as int, from as int) == Seq::<Seq<char>>::empty());
    while i < to
        invariant
            from <= i <= to <= words.len(),
            all == words_view(words@),
            out@ == words_joined(all.subrange(from as int, i as int)),
        decreases to - i,
    {
        if i > from {
            out.append(" ");
        }
        out.append(words[i].as_str());
        proof {
            let seen = all.subrange(from as int, i as int);
            let next = all.subrange(from as int, i + 1);
            assert(next.drop_last() == seen);
            assert(next.last() == all[i as int]);
            if i == from {
                assert(next[0] == all[i as int]);
            }
            assert(out@ =~= words_joined(next));
        }
        i += 1;
    }
    out
}

/// Splits the first line of a mesh file into the description and the
/// reference system.
///
/// `words` are the words of the line. `whole_accepted` says whether the line
/// as a whole is accepted as a reference system, and `accepted` says for
/// each word whether the words from it on, joined with blanks, are.
pub fn split_description(
    line: &str,
    words: &Vec<String>,
    whole_accepted: bool,
    accepted: &Vec<bool>,
) -> (r: (String, Option<String>))
    ensures
        r.0@ == split_first_line(line@, words_view(words@), whole_accepted, accepted@).0,
        (match r.1 {
            Some(crs) => Some(crs@),
            None => None,
        }) == split_first_line(line@, words_view(words@), whole_accepted, accepted@).1,
{
    if whole_accepted {
        return (String::new(), Some(line.to_owned()));
    }
    let ghost all = words_view(words@);
    let mut at: usize = 0;
    while at < words.len() && !(at < accepted.len() && accepted[at])
        invariant
            at <= words.len(),
            first_accepted(accepted@, words@.len() as int, 0) == first_accepted(
                accepted@,
                words@.len() as int,
                at as int,
            ),
        decreases words.len() - at,
    {
        at += 1;
    }
    if at < words.len() {
        proof {
            assert(all.take(at as int) == all.subrange(0, at as int));
            assert(all.skip(at as int) == all.subrange(at as int, all.len() as int));
        }
        let description = join_words(words, 0, at);
        let crs = join_words(words, at, words.len());
        (description, Some(crs))
    } else {
        (line.to_owned(), None)
    }
}

} // verus!
