//! Access to a parsed TOML document.
//!
//! The `toml` crate parses the text and owns the resulting tree. The tree is
//! opaque here: the functions below are the only way into it, and what their
//! contracts say is taken from the `toml` sources, not proved.

use vstd::prelude::*;
use vstd::std_specs::iter::IteratorSpec;

verus! {

#[verifier::external_type_specification]
#[verifier::external_body]
pub struct ExValue(toml::Value);

/// The tree that `toml::from_str` builds from `text`, or `None` where it
/// reports an error.
pub uninterp spec fn parsed(text: Seq<char>) -> Option<toml::Value>;

/// The string that a value holds, or `None` where it is of another kind.
pub uninterp spec fn text_of(value: toml::Value) -> Option<Seq<char>>;

/// The keys of a table in the order in which the table is walked, or `None`
/// where the value is no table.
pub uninterp spec fn keys_of(value: toml::Value) -> Option<Seq<Seq<char>>>;

/// The value that a table holds under `key`, or `None` where it holds none
/// or where `value` is no table.
pub uninterp spec fn member_of(value: toml::Value, key: Seq<char>) -> Option<toml::Value>;

/// The largest nesting bound with which a text is handed to the parser.
pub const MAX_NESTING: usize = 256;

/// Whether `c` opens an array, an inline table or a table header.
pub open spec fn is_opener(c: char) -> bool {
    c == '[' || c == '{'
}

/// What a scan of a text has counted. A line ends with a line feed; the
/// characters after the last line feed are the line that is still open.
pub struct Tally {
    /// The number of `.` on the open line.
    pub dots: nat,
    /// The number of `[` and `{` on the open line.
    pub openers: nat,
    /// The most `.` on any one of the finished lines.
    pub most_dots: nat,
    /// The sum, over the finished lines that hold a `[` or a `{`, of the
    /// number of `.`, `[` and `{` on the line.
    pub nested: nat,
}

/// What a line adds to `nested` when it ends: nothing without an opener,
/// else its dots and its openers.
pub open spec fn line_weight(tally: Tally) -> nat {
    if tally.openers > 0 {
        tally.dots + tally.openers
    } else {
        0
    }
}

/// The larger of two numbers.
pub open spec fn larger(a: nat, b: nat) -> nat {
    if a >= b {
        a
    } else {
        b
    }
}

/// The tally after one more character.
pub open spec fn count(tally: Tally, c: char) -> Tally {
    if c == '\n' {
        Tally {
            dots: 0,
            openers: 0,
            most_dots: larger(tally.most_dots, tally.dots),
            nested: tally.nested + line_weight(tally),
        }
    } else if c == '.' {
        Tally { dots: tally.dots + 1, ..tally }
    } else if is_opener(c) {
        Tally { openers: tally.openers + 1, ..tally }
    } else {
        tally
    }
}

/// The tally of a text, counted from its first character to its last.
pub open spec fn tally_of(text: Seq<char>) -> Tally
    decreases text.len(),
{
    if text.len() == 0 {
        Tally { dots: 0, openers: 0, most_dots: 0, nested: 0 }
    } else {
        count(tally_of(text.drop_last()), text.last())
    }
}

/// The bound that a tally gives, with the open line taken for finished:
/// three times the most dots on one line, and the weight of every line that
/// holds an opener.
pub open spec fn bound_of(tally: Tally) -> nat {
    3 * larger(tally.most_dots, tally.dots) + tally.nested + line_weight(tally)
}

/// A number that the depth of the parser's recursion on `text` stays within,
/// up to a small constant. It counts characters and knows nothing of strings
/// and comments, so it may be far above the nesting that the text has.
///
/// Why it is a bound: the parser goes one level down for each part of a
/// table header, twice where the part is an array of tables, for each part
/// of a dotted key, and for each array and inline table around a value. A
/// header and a key stand on one line with a `.` between their parts, which
/// gives the first term: a header, and the key of the value that is reached
/// last. Every other key on the way down has an array or an inline table as
/// its value, whose opener follows the `=` on the key's own line, and every
/// array and inline table has an opener, which gives the second term.
pub open spec fn nesting_bound(text: Seq<char>) -> nat {
    bound_of(tally_of(text))
}

/// Whether `text` is within the nesting that the parser is given to read.
pub open spec fn shallow(text: Seq<char>) -> bool {
    nesting_bound(text) <= MAX_NESTING
}

/// One more character never lowers the bound.
pub proof fn lemma_count_grows(tally: Tally, c: char)
    ensures
        bound_of(tally) <= bound_of(count(tally, c)),
{
}

/// The bound of a text is at least the bound of any text that it starts
/// with.
pub proof fn lemma_bound_grows(head: Seq<char>, tail: Seq<char>)
    ensures
        nesting_bound(head) <= nesting_bound(head + tail),
    decreases tail.len(),
{
    if tail.len() == 0 {
        assert(head + tail =~= head);
    } else {
        assert((head + tail).drop_last() =~= head + tail.drop_last());
        lemma_bound_grows(head, tail.drop_last());
        lemma_count_grows(tally_of(head + tail.drop_last()), tail.last());
    }
}

/// Scans `text` and says whether the parser may be given it. The scan ends
/// as soon as the bound is passed.
pub fn is_shallow(text: &str) -> (fits: bool)
    ensures
        fits == shallow(text@),
{
    let mut rest = text.chars();
    let ghost mut seen: Seq<char> = Seq::empty();
    let mut dots: usize = 0;
    let mut openers: usize = 0;
    let mut most_dots: usize = 0;
    let mut nested: usize = 0;
    assert(seen + rest.remaining() =~= text@);
    loop
        invariant
            rest.obeys_prophetic_iter_laws(),
            rest.decrease() is Some,
            seen + rest.remaining() == text@,
            tally_of(seen) == (Tally {
                dots: dots as nat,
                openers: openers as nat,
                most_dots: most_dots as nat,
                nested: nested as nat,
            }),
            nesting_bound(seen) <= MAX_NESTING,
        decreases rest.decrease()->0,
    {
        let ghost before = rest.remaining();
        match rest.next() {
            Some(c) => {
                proof {
                    assert(seen.push(c).drop_last() =~= seen);
                    assert(seen.push(c) + rest.remaining() =~= seen + before);
                    seen = seen.push(c);
                }
                if c == '\n' {
                    if openers > 0 {
                        nested = nested + dots + openers;
                    }
                    if dots > most_dots {
                        most_dots = dots;
                    }
                    dots = 0;
                    openers = 0;
                } else if c == '.' {
                    dots = dots + 1;
                } else if c == '[' || c == '{' {
                    openers = openers + 1;
                }
                let most = if dots > most_dots {
                    dots
                } else {
                    most_dots
                };
                let weight = if openers > 0 {
                    dots + openers
                } else {
                    0
                };
                if 3 * most + nested + weight > MAX_NESTING {
                    proof {
                        lemma_bound_grows(seen, rest.remaining());
                    }
                    return false;
                }
            },
            None => {
                assert(seen =~= text@);
                return true;
            },
        }
    }
}

/// Parses a whole document with `toml::from_str`, asking for a
/// `toml::Value`, and keeps of an error only that there was one.
///
/// The parser is a function of the text alone. It goes down by recursion
/// into arrays, inline tables, the parts of dotted keys and the parts of
/// table headers, without a limit of its own, and a text nested deeply
/// enough exhausts the call stack. So it is given only text with a bounded
/// `nesting_bound`.
#[verifier::external_body]
pub(crate) fn parse(text: &str) -> (document: Option<toml::Value>)
    requires
        shallow(text@),
    ensures
        document == parsed(text@),
{
    toml::from_str::<toml::Value>(text).ok()
}

/// The document that a text is read as: what the parser makes of it where
/// the text is within the nesting bound, and none for a text beyond it.
pub open spec fn document_of(text: Seq<char>) -> Option<toml::Value> {
    if shallow(text) {
        parsed(text)
    } else {
        None
    }
}

/// Reads `text` as a TOML document. A text whose `nesting_bound` is above
/// `MAX_NESTING` is not handed to the parser and counts as no document.
pub fn read(text: &str) -> (document: Option<toml::Value>)
    ensures
        document == document_of(text@),
{
    if is_shallow(text) {
        parse(text)
    } else {
        None
    }
}

/// `toml::Value::as_str`: the string inside a string value, `None` for every
/// other kind of value.
#[verifier::external_body]
pub(crate) fn as_text(value: &toml::Value) -> (text: Option<&str>)
    ensures
        match text {
            Some(s) => text_of(*value) == Some(s@),
            None => text_of(*value).is_none(),
        },
{
    value.as_str()
}

/// `toml::Value::get` with a string index: the entry of a table under that
/// key; `None` where the key is missing or the value is no table.
#[verifier::external_body]
pub(crate) fn member<'a>(value: &'a toml::Value, key: &str) -> (entry: Option<&'a toml::Value>)
    ensures
        match entry {
            Some(v) => member_of(*value, key@) == Some(*v),
            None => member_of(*value, key@).is_none(),
        },
{
    value.get(key)
}

/// `toml::Value::as_table`, then `toml::map::Map::keys`: the keys of a table,
/// copied out in the order of the walk; `None` where the value is no table.
///
/// The table is a map, so no key comes twice.
#[verifier::external_body]
pub(crate) fn keys(value: &toml::Value) -> (names: Option<Vec<String>>)
    ensures
        match names {
            Some(ks) => {
                &&& keys_of(*value) == Some(ks.deep_view())
                &&& forall|i: int, j: int|
                    0 <= i < j < ks@.len() ==> (#[trigger] ks@[i])@ != (#[trigger] ks@[j])@
            },
            None => keys_of(*value).is_none(),
        },
{
    match value.as_table() {
        Some(table) => Some(table.keys().cloned().collect()),
        None => None,
    }
}

} // verus!
