//! The structured document loader: the bundle's files are yaml text, parsed
//! through the `yaml_rust` crate.
//!
//! The parsed documents are carried as opaque [`yaml_rust::Yaml`] values; what
//! the two calls below return is named by uninterpreted spec functions, since
//! both are functions of their argument alone.
//!
//! The parser recurses once per block nesting level without any guard (its
//! own recursion cap covers only flow-style nesting, at 255 levels), and it
//! clones anchored values whole when they are defined and when an alias names
//! them, so unbounded nesting or unbounded anchor chains can exhaust the
//! stack instead of returning an error. The loader is therefore guarded: a
//! verified pre-scan ([`yaml_input_within_bounds`]) admits only texts whose
//! block nesting and anchor count are bounded, and the trusted wrapper
//! requires exactly that.

use vstd::prelude::*;
use vstd::string::StrSliceExecFns;
use vstd::utf8::encode_utf8;
use yaml_rust::{Yaml, YamlLoader};

verus! {

#[verifier::external_type_specification]
#[verifier::external_body]
pub struct ExYaml(Yaml);

/// The longest run of leading block indicators a line may carry. Block
/// nesting can only be opened by a line's leading indentation, `- ` sequence
/// entries and `? ` key markers, so this bounds the nesting depth any line
/// can open; real manifests stay far below it.
pub const MAX_BLOCK_NESTING: usize = 64;

/// How many anchor definitions a document file may carry. Every anchored
/// value is cloned when it is defined and when an alias names it, and chained
/// anchors stack their depths, so the materialized depth of a parsed value is
/// bounded by the nesting bound times the anchor count (within a small
/// constant factor). Manifests produced by cluster serializers carry none.
pub const MAX_ANCHOR_DEFINITIONS: usize = 16;

/// The nesting bound of the shallow tier: a file every one of whose lines
/// opens at most this much nesting may carry more anchors, since the
/// depth-times-count product stays in the same class.
pub const MAX_SHALLOW_NESTING: usize = 8;

/// How many anchor definitions a shallow file may carry.
pub const MAX_SHALLOW_ANCHORS: usize = 128;

/// A space, `-` or `?`: the bytes that can stand in a line's leading run and
/// open block nesting.
pub open spec fn is_block_indicator(b: u8) -> bool {
    b == 32 || b == 45 || b == 63
}

/// A line feed or carriage return: the parser treats either byte alone as a
/// line break, so the guard must too.
pub open spec fn is_line_break(b: u8) -> bool {
    b == 10 || b == 13
}

/// A byte after which a `&` can begin an anchor token: whitespace, a line
/// break, or a block or flow indicator. A `&` inside a plain scalar follows
/// none of these.
pub open spec fn is_anchor_delim(b: u8) -> bool {
    ||| b == 32  // space
    ||| b == 9  // tab
    ||| b == 10  // line feed
    ||| b == 13  // carriage return
    ||| b == 45  // -
    ||| b == 63  // ?
    ||| b == 58  // :
    ||| b == 44  // ,
    ||| b == 91  // [
    ||| b == 123  // {
}

/// The length of the leading run of block indicators.
pub open spec fn indicator_run(bytes: Seq<u8>) -> nat
    decreases bytes.len(),
{
    if bytes.len() > 0 && is_block_indicator(bytes[0]) {
        1 + indicator_run(bytes.drop_first())
    } else {
        0
    }
}

/// Whether position `i` can begin an anchor token: a `&` at the start of the
/// text or after a delimiter.
pub open spec fn is_anchor_start(bytes: Seq<u8>, i: int) -> bool {
    bytes[i] == 38 && (i == 0 || is_anchor_delim(bytes[i - 1]))
}

/// How many positions of `bytes` can begin an anchor token.
pub open spec fn anchor_starts(bytes: Seq<u8>) -> nat
    decreases bytes.len(),
{
    if bytes.len() == 0 {
        0
    } else {
        anchor_starts(bytes.drop_last()) + if is_anchor_start(bytes, bytes.len() - 1) {
            1nat
        } else {
            0nat
        }
    }
}

/// Whether every line's leading run of block indicators is within `bound`.
/// A line starts at the text's first byte and after every line break.
pub open spec fn indicator_runs_bounded(bytes: Seq<u8>, bound: nat) -> bool {
    forall|i: int|
        0 <= i < bytes.len() && (i == 0 || is_line_break(bytes[i - 1])) ==> indicator_run(
            #[trigger] bytes.skip(i),
        ) <= bound
}

/// Whether a text is within the parser guard: every line's leading run of
/// block indicators is at most [`MAX_BLOCK_NESTING`], and the anchor count is
/// within the tier the nesting allows — at most [`MAX_ANCHOR_DEFINITIONS`]
/// positions that can begin an anchor token, or, for a file whose every line
/// opens at most [`MAX_SHALLOW_NESTING`] levels, [`MAX_SHALLOW_ANCHORS`] of
/// them. The bytes looked at are all ASCII, so the byte view decides this
/// exactly.
pub open spec fn yaml_input_ok(text: Seq<char>) -> bool {
    let bytes = encode_utf8(text);
    &&& indicator_runs_bounded(bytes, MAX_BLOCK_NESTING as nat)
    &&& (anchor_starts(bytes) <= MAX_ANCHOR_DEFINITIONS || (indicator_runs_bounded(
        bytes,
        MAX_SHALLOW_NESTING as nat,
    ) && anchor_starts(bytes) <= MAX_SHALLOW_ANCHORS))
}

/// A leading run of exactly `r` block indicators has `indicator_run` `r`.
proof fn lemma_indicator_run_len(s: Seq<u8>, r: int)
    requires
        0 <= r <= s.len(),
        forall|k: int| 0 <= k < r ==> is_block_indicator(#[trigger] s[k]),
        r < s.len() ==> !is_block_indicator(s[r]),
    ensures
        indicator_run(s) == r,
    decreases r,
{
    if r > 0 {
        assert(forall|k: int| 0 <= k < r - 1 ==> #[trigger] s.drop_first()[k] == s[k + 1]);
        lemma_indicator_run_len(s.drop_first(), r - 1);
    }
}

/// A leading run of at least `r` block indicators gives `indicator_run` at
/// least `r`.
proof fn lemma_indicator_run_min(s: Seq<u8>, r: int)
    requires
        0 <= r <= s.len(),
        forall|k: int| 0 <= k < r ==> is_block_indicator(#[trigger] s[k]),
    ensures
        indicator_run(s) >= r,
    decreases r,
{
    if r > 0 {
        assert(forall|k: int| 0 <= k < r - 1 ==> #[trigger] s.drop_first()[k] == s[k + 1]);
        lemma_indicator_run_min(s.drop_first(), r - 1);
    }
}

/// Decides [`yaml_input_ok`]: scans the text's bytes once for anchor starts
/// and once, line by line, for over-long indicator runs.
pub fn yaml_input_within_bounds(text: &str) -> (r: bool)
    ensures
        r == yaml_input_ok(text@),
{
    let bytes: Vec<u8> = text.as_bytes_vec();
    proof {
        assert(bytes@ == encode_utf8(text@));
    }
    let n = bytes.len();

    let mut anchors: usize = 0;
    let mut i: usize = 0;
    proof {
        assert(bytes@.take(0).len() == 0);
    }
    while i < n
        invariant
            n == bytes@.len(),
            0 <= i <= n,
            anchors <= i,
            anchors == anchor_starts(bytes@.take(i as int)),
        decreases n - i,
    {
        proof {
            assert(bytes@.take(i + 1).drop_last() =~= bytes@.take(i as int));
            assert(bytes@.take(i + 1).last() == bytes@[i as int]);
        }
        if bytes[i] == 38 {
            let prev_delim = if i == 0 {
                true
            } else {
                let p = bytes[i - 1];
                p == 32 || p == 9 || p == 10 || p == 13 || p == 45 || p == 63 || p == 58 || p == 44
                    || p == 91 || p == 123
            };
            if prev_delim {
                anchors += 1;
            }
        }
        i += 1;
    }
    proof {
        assert(bytes@.take(n as int) =~= bytes@);
    }
    if anchors > MAX_SHALLOW_ANCHORS {
        return false;
    }

    let mut all_shallow = true;
    let ghost mut deep_line: int = 0;
    let mut i: usize = 0;
    while i < n
        invariant
            n == bytes@.len(),
            bytes@ == encode_utf8(text@),
            anchors == anchor_starts(bytes@),
            anchors <= MAX_SHALLOW_ANCHORS,
            0 <= i <= n,
            i == 0 || is_line_break(bytes@[i - 1]),
            forall|j: int|
                0 <= j < i && (j == 0 || is_line_break(bytes@[j - 1])) ==> indicator_run(
                    #[trigger] bytes@.skip(j),
                ) <= MAX_BLOCK_NESTING,
            all_shallow ==> forall|j: int|
                0 <= j < i && (j == 0 || is_line_break(bytes@[j - 1])) ==> indicator_run(
                    #[trigger] bytes@.skip(j),
                ) <= MAX_SHALLOW_NESTING,
            !all_shallow ==> 0 <= deep_line < i && (deep_line == 0 || is_line_break(
                bytes@[deep_line - 1],
            )) && indicator_run(bytes@.skip(deep_line)) > MAX_SHALLOW_NESTING,
        decreases n - i,
    {
        let line_start = i;
        let mut k: usize = i;
        while k < n && k - line_start <= MAX_BLOCK_NESTING && (bytes[k] == 32 || bytes[k] == 45
            || bytes[k] == 63)
            invariant
                n == bytes@.len(),
                line_start <= k <= n,
                k - line_start <= MAX_BLOCK_NESTING + 1,
                forall|m: int| line_start <= m < k ==> is_block_indicator(#[trigger] bytes@[m]),
            decreases n - k,
        {
            k += 1;
        }
        proof {
            assert(forall|m: int|
                0 <= m < k - line_start ==> #[trigger] bytes@.skip(line_start as int)[m] == bytes@[
                line_start + m
                ]);
        }
        if k - line_start > MAX_BLOCK_NESTING {
            proof {
                lemma_indicator_run_min(bytes@.skip(line_start as int), k - line_start);
            }
            return false;
        }
        proof {
            lemma_indicator_run_len(bytes@.skip(line_start as int), k - line_start);
        }
        if k - line_start > MAX_SHALLOW_NESTING {
            all_shallow = false;
            proof {
                deep_line = line_start as int;
            }
        }
        while k < n && bytes[k] != 10 && bytes[k] != 13
            invariant
                n == bytes@.len(),
                line_start <= k <= n,
                forall|m: int| line_start <= m < k ==> !is_line_break(#[trigger] bytes@[m]),
            decreases n - k,
        {
            k += 1;
        }
        if k == n {
            // scanned to the end of the text: every line start at or past
            // this line's is accounted for
            proof {
                assert forall|j: int|
                    0 <= j < n && (j == 0 || is_line_break(bytes@[j - 1])) implies indicator_run(
                    #[trigger] bytes@.skip(j),
                ) <= MAX_BLOCK_NESTING by {
                    if j > line_start as int {
                        assert(!is_line_break(bytes@[j - 1]));
                    }
                }
                if all_shallow {
                    assert forall|j: int|
                        0 <= j < n && (j == 0 || is_line_break(bytes@[j - 1])) implies
                        indicator_run(#[trigger] bytes@.skip(j)) <= MAX_SHALLOW_NESTING by {
                        if j > line_start as int {
                            assert(!is_line_break(bytes@[j - 1]));
                        }
                    }
                } else {
                    assert(indicator_run(bytes@.skip(deep_line)) > MAX_SHALLOW_NESTING);
                }
            }
            return anchors <= MAX_ANCHOR_DEFINITIONS || (all_shallow && anchors
                <= MAX_SHALLOW_ANCHORS);
        }
        i = k + 1;
    }
    proof {
        if !all_shallow {
            assert(indicator_run(bytes@.skip(deep_line)) > MAX_SHALLOW_NESTING);
        }
    }
    anchors <= MAX_ANCHOR_DEFINITIONS || (all_shallow && anchors <= MAX_SHALLOW_ANCHORS)
}

/// The sequence of documents the yaml parser yields for this text, or `None`
/// when the text is not well-formed yaml.
pub uninterp spec fn yaml_docs_of(text: Seq<char>) -> Option<Seq<Yaml>>;

/// The elements of the array under the `items` key of this document, or
/// `None` when the document is not a map holding an array there.
pub uninterp spec fn yaml_items_of(doc: Yaml) -> Option<Seq<Yaml>>;

/// Relies on `yaml_rust::YamlLoader::load_from_str`: it parses text into its
/// sequence of yaml documents, deciding well-formedness by the text alone,
/// and reports ill-formed text as an `Err`. Its loading recursion follows the
/// block nesting, which some line's leading indicator run must open (flow
/// nesting the crate caps itself at 255), and the values it builds, clones at
/// every anchor definition and alias, and later drops are at most about the
/// nesting bound times the anchor count deep, so under [`yaml_input_ok`] the
/// call returns instead of exhausting the stack.
#[verifier::external_body]
pub(crate) fn load_yaml_documents(text: &str) -> (r: Option<Vec<Yaml>>)
    requires
        yaml_input_ok(text@),
    ensures
        match r {
            Some(docs) => yaml_docs_of(text@) == Some(docs@),
            None => yaml_docs_of(text@) is None,
        },
{
    match YamlLoader::load_from_str(text) {
        Ok(docs) => Some(docs),
        Err(_) => None,
    }
}

/// Relies on yaml_rust's `Index<&str>` impl for `Yaml`: `doc["items"]` is the
/// value under the `items` key when `doc` is a map that has it, and the
/// `BadValue` marker otherwise, a function of the document alone. Every
/// document handed in comes from the guarded loader, so its depth is bounded
/// and the clone of the array stays within the stack.
#[verifier::external_body]
pub(crate) fn load_items_array(doc: &Yaml) -> (r: Option<Vec<Yaml>>)
    ensures
        match r {
            Some(items) => yaml_items_of(*doc) == Some(items@),
            None => yaml_items_of(*doc) is None,
        },
{
    match &doc["items"] {
        Yaml::Array(items) => Some(items.clone()),
        _ => None,
    }
}

} // verus!
