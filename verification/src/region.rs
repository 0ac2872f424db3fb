//! Region-level opcode sets: classifying a header block's raw pairs into
//! a typed opcode map plus an opaque pass-through map for unrecognized
//! keys.  Within one block a later occurrence of a key wins; a recognized
//! key with an inadmissible value is an error (collected, so the caller
//! chooses fail-fast or accumulate-and-continue).

use vstd::prelude::*;
use crate::preprocess::clone_chars;
use crate::table::CharMap;
use crate::taxonomy::{classify, taxonomy, value_ok, opcode_key_match, opcode_value_match,
    Classified};
use crate::opcode_types::Opcode;
use crate::tokenizer::{op_views, GOp, HeaderBlock};
use crate::SfzError;

verus! {

/// One scope's own opcode set: the typed opcodes keyed by their raw key
/// text, and the unrecognized pairs preserved verbatim.
#[derive(Debug, Clone, PartialEq)]
pub struct Region {
    /// Typed opcodes, keyed by raw key; the last admissible occurrence of
    /// a key wins.
    pub opcodes: CharMap<Opcode>,
    /// Unrecognized keys with their raw values, preserved for forward
    /// compatibility; the last occurrence wins.
    pub parameters: CharMap<Vec<char>>,
}

/// The text map a pass-through `CharMap` denotes.
pub open spec fn param_view(m: Map<Seq<char>, Vec<char>>) -> Map<Seq<char>, Seq<char>> {
    Map::new(|k: Seq<char>| m.contains_key(k), |k: Seq<char>| m[k]@)
}

/// Whether a raw pair is admissible: its key is unrecognized, or its value
/// fits the key's declared kind and range.
pub open spec fn op_valid(op: GOp) -> bool {
    match taxonomy(op.key) {
        Some((k, lo, hi)) => value_ok(k, lo, hi, op.key, op.value),
        None => true,
    }
}

/// The value of the last admissible occurrence of a recognized key.
pub open spec fn last_valid_value_of(ops: Seq<GOp>, k: Seq<char>) -> Option<Seq<char>>
    decreases ops.len(),
{
    if ops.len() == 0 {
        None
    } else if ops.last().key == k && op_valid(ops.last()) {
        Some(ops.last().value)
    } else {
        last_valid_value_of(ops.drop_last(), k)
    }
}

/// The value of the last occurrence of a key, recognized or not.
pub open spec fn last_value_of(ops: Seq<GOp>, k: Seq<char>) -> Option<Seq<char>>
    decreases ops.len(),
{
    if ops.len() == 0 {
        None
    } else if ops.last().key == k {
        Some(ops.last().value)
    } else {
        last_value_of(ops.drop_last(), k)
    }
}

/// The inadmissible pairs of a block, in document order.
pub open spec fn bad_ops(ops: Seq<GOp>) -> Seq<GOp>
    decreases ops.len(),
{
    if ops.len() == 0 {
        Seq::empty()
    } else if op_valid(ops.last()) {
        bad_ops(ops.drop_last())
    } else {
        bad_ops(ops.drop_last()).push(ops.last())
    }
}

/// What a correctly classified block's maps must hold, relative to the raw
/// pairs `ops`.
pub open spec fn region_matches(r: Region, ops: Seq<GOp>) -> bool {
    &&& forall|k: Seq<char>|
        r.opcodes@.contains_key(k) <==> (taxonomy(k) is Some && #[trigger] last_valid_value_of(
            ops,
            k,
        ) is Some)
    &&& forall|k: Seq<char>|
        #[trigger] r.opcodes@.contains_key(k) ==> opcode_key_match(r.opcodes@[k], k)
            && opcode_value_match(r.opcodes@[k], last_valid_value_of(ops, k)->Some_0)
    &&& forall|k: Seq<char>|
        param_view(r.parameters@).contains_key(k) <==> (taxonomy(k) is None
            && #[trigger] last_value_of(ops, k) is Some)
    &&& forall|k: Seq<char>|
        #[trigger] param_view(r.parameters@).contains_key(k) ==> param_view(r.parameters@)[k]
            == last_value_of(ops, k)->Some_0
}

/// Whether `errs` reports exactly the inadmissible pairs `bads`, in
/// order, each as a range violation naming the key, the value and the
/// declared bounds.
pub open spec fn errs_match(errs: Seq<SfzError>, bads: Seq<GOp>) -> bool {
    &&& errs.len() == bads.len()
    &&& forall|i: int|
        0 <= i < errs.len() ==> match #[trigger] errs[i] {
            SfzError::OpcodeRangeViolation { key, value, lo, hi } => {
                let op = bads[i];
                &&& key@ == op.key
                &&& value@ == op.value
                &&& taxonomy(op.key) matches Some((k, l, h)) && l == lo && h == hi
            },
            _ => false,
        }
}

/// Error lists for concatenated bad-pair lists concatenate.
pub proof fn lemma_errs_match_concat(
    e1: Seq<SfzError>,
    b1: Seq<GOp>,
    e2: Seq<SfzError>,
    b2: Seq<GOp>,
)
    requires
        errs_match(e1, b1),
        errs_match(e2, b2),
    ensures
        errs_match(e1 + e2, b1 + b2),
{
    assert forall|i: int| 0 <= i < e1.len() + e2.len() implies match #[trigger] (e1 + e2)[i] {
        SfzError::OpcodeRangeViolation { key, value, lo, hi } => {
            let op = (b1 + b2)[i];
            &&& key@ == op.key
            &&& value@ == op.value
            &&& taxonomy(op.key) matches Some((k, l, h)) && l == lo && h == hi
        },
        _ => false,
    } by {
        if i < e1.len() {
            assert((e1 + e2)[i] == e1[i]);
            assert((b1 + b2)[i] == b1[i]);
        } else {
            assert((e1 + e2)[i] == e2[i - e1.len()]);
            assert((b1 + b2)[i] == b2[i - b1.len()]);
        }
    }
}

/// Classifies every pair of a block, collecting one range violation per
/// inadmissible pair and keeping the rest: the accumulate-and-continue
/// mode of the classifier.
pub fn classify_block(block: &HeaderBlock) -> (r: (Region, Vec<SfzError>))
    ensures
        region_matches(r.0, op_views(block.opcodes@)),
        errs_match(r.1@, bad_ops(op_views(block.opcodes@))),
{
    let mut region = Region { opcodes: CharMap::new(), parameters: CharMap::new() };
    let mut errs: Vec<SfzError> = Vec::new();
    let n = block.opcodes.len();
    let mut i: usize = 0;
    let ghost all = op_views(block.opcodes@);
    proof {
        assert(all.take(0) =~= Seq::<GOp>::empty());
        assert(param_view(region.parameters@) =~= Map::<Seq<char>, Seq<char>>::empty());
    }
    while i < n
        invariant
            0 <= i <= n,
            n == block.opcodes@.len(),
            all == op_views(block.opcodes@),
            region_matches(region, all.take(i as int)),
            errs_match(errs@, bad_ops(all.take(i as int))),
        decreases n - i,
    {
        let op = &block.opcodes[i];
        let ghost gop = GOp { key: op.key@, value: op.value@ };
        let ghost prefix = all.take(i as int);
        proof {
            assert(all[i as int] == gop);
            assert(all.take(i as int + 1).drop_last() =~= prefix);
            assert(all.take(i as int + 1).last() == gop);
        }
        match classify(op) {
            Ok(Classified::Known(t)) => {
                let key = clone_chars(&op.key);
                region.opcodes.insert(key, t);
                proof {
                    lemma_region_step_known(prefix, gop);
                }
            },
            Ok(Classified::Unknown) => {
                let key = clone_chars(&op.key);
                let value = clone_chars(&op.value);
                let ghost pv = param_view(region.parameters@);
                region.parameters.insert(key, value);
                proof {
                    assert(param_view(region.parameters@) =~= pv.insert(gop.key, gop.value));
                    lemma_region_step_unknown(prefix, gop);
                }
            },
            Err(e) => {
                errs.push(e);
                proof {
                    lemma_region_step_bad(prefix, gop);
                }
            },
        }
        i += 1;
    }
    proof {
        assert(all.take(n as int) =~= all);
    }
    (region, errs)
}

/// Appending an admissible recognized pair updates only its own key.
proof fn lemma_region_step_known(prefix: Seq<GOp>, op: GOp)
    requires
        op_valid(op),
        taxonomy(op.key) is Some,
    ensures
        forall|k: Seq<char>|
            #[trigger] last_valid_value_of(prefix.push(op), k) == if k == op.key {
                Some(op.value)
            } else {
                last_valid_value_of(prefix, k)
            },
        forall|k: Seq<char>|
            #[trigger] last_value_of(prefix.push(op), k) == if k == op.key {
                Some(op.value)
            } else {
                last_value_of(prefix, k)
            },
        bad_ops(prefix.push(op)) == bad_ops(prefix),
{
    lemma_push_structure(prefix, op);
}

/// Appending an unrecognized pair updates only the pass-through view.
proof fn lemma_region_step_unknown(prefix: Seq<GOp>, op: GOp)
    requires
        taxonomy(op.key) is None,
    ensures
        forall|k: Seq<char>|
            #[trigger] last_valid_value_of(prefix.push(op), k) == if k == op.key {
                Some(op.value)
            } else {
                last_valid_value_of(prefix, k)
            },
        forall|k: Seq<char>|
            #[trigger] last_value_of(prefix.push(op), k) == if k == op.key {
                Some(op.value)
            } else {
                last_value_of(prefix, k)
            },
        bad_ops(prefix.push(op)) == bad_ops(prefix),
{
    lemma_push_structure(prefix, op);
}

/// Appending an inadmissible pair adds one entry to the error list and
/// leaves every map unchanged.
proof fn lemma_region_step_bad(prefix: Seq<GOp>, op: GOp)
    requires
        !op_valid(op),
    ensures
        forall|k: Seq<char>|
            #[trigger] last_valid_value_of(prefix.push(op), k) == last_valid_value_of(prefix, k),
        forall|k: Seq<char>|
            #[trigger] last_value_of(prefix.push(op), k) == if k == op.key {
                Some(op.value)
            } else {
                last_value_of(prefix, k)
            },
        bad_ops(prefix.push(op)) == bad_ops(prefix).push(op),
        taxonomy(op.key) is Some,
{
    lemma_push_structure(prefix, op);
    assert(taxonomy(op.key) is Some) by {
        if taxonomy(op.key) is None {
            assert(op_valid(op));
        }
    };
    if !op_valid(op) {
        assert(!(op.key == op.key && op_valid(op)));
    }
}

/// The one-step unfolding shared by the three step lemmas.
proof fn lemma_push_structure(prefix: Seq<GOp>, op: GOp)
    ensures
        forall|k: Seq<char>|
            #[trigger] last_value_of(prefix.push(op), k) == if k == op.key {
                Some(op.value)
            } else {
                last_value_of(prefix, k)
            },
        forall|k: Seq<char>|
            #[trigger] last_valid_value_of(prefix.push(op), k) == if k == op.key && op_valid(op) {
                Some(op.value)
            } else {
                last_valid_value_of(prefix, k)
            },
        bad_ops(prefix.push(op)) == if op_valid(op) {
            bad_ops(prefix)
        } else {
            bad_ops(prefix).push(op)
        },
{
    let s = prefix.push(op);
    assert(s.drop_last() =~= prefix);
    assert(s.last() == op);
    assert forall|k: Seq<char>| true implies #[trigger] last_value_of(s, k) == if k == op.key {
        Some(op.value)
    } else {
        last_value_of(prefix, k)
    } by {
        assert(last_value_of(s, k) == if s.last().key == k {
            Some(s.last().value)
        } else {
            last_value_of(s.drop_last(), k)
        });
    }
    assert forall|k: Seq<char>| true implies #[trigger] last_valid_value_of(s, k) == if k == op.key
        && op_valid(op) {
        Some(op.value)
    } else {
        last_valid_value_of(prefix, k)
    } by {
        assert(last_valid_value_of(s, k) == if s.last().key == k && op_valid(s.last()) {
            Some(s.last().value)
        } else {
            last_valid_value_of(s.drop_last(), k)
        });
    }
}

/// Interprets a region-style header block into its typed opcode set,
/// failing fast on the first range violation.
pub fn parse_region(block: &HeaderBlock) -> (r: Result<Region, SfzError>)
    ensures
        match r {
            Ok(region) => region_matches(region, op_views(block.opcodes@)) && bad_ops(
                op_views(block.opcodes@),
            ).len() == 0,
            Err(e) => errs_match(
                seq![e],
                bad_ops(
                    op_views(block.opcodes@).take(smallest_bad(op_views(block.opcodes@)) + 1),
                ),
            ) && bad_ops(op_views(block.opcodes@)).len() > 0,
        },
{
    let (region, mut errs) = classify_block(block);
    if errs.len() == 0 {
        Ok(region)
    } else {
        let e = errs.remove(0);
        proof {
            lemma_first_bad(op_views(block.opcodes@));
        }
        Err(e)
    }
}

/// Index of the first inadmissible pair (meaningful only when one exists).
pub open spec fn smallest_bad(ops: Seq<GOp>) -> int
    decreases ops.len(),
{
    if ops.len() == 0 {
        0
    } else if bad_ops(ops.drop_last()).len() > 0 {
        smallest_bad(ops.drop_last())
    } else {
        ops.len() - 1
    }
}

/// When a block has inadmissible pairs, the first of them is the only one
/// within the prefix that ends with it.
proof fn lemma_first_bad(ops: Seq<GOp>)
    requires
        bad_ops(ops).len() > 0,
    ensures
        0 <= smallest_bad(ops) < ops.len(),
        bad_ops(ops.take(smallest_bad(ops) + 1)) =~= seq![bad_ops(ops)[0]],
    decreases ops.len(),
{
    if bad_ops(ops.drop_last()).len() > 0 {
        lemma_first_bad(ops.drop_last());
        assert(ops.drop_last().take(smallest_bad(ops.drop_last()) + 1) =~= ops.take(
            smallest_bad(ops) + 1,
        ));
        assert(bad_ops(ops)[0] == bad_ops(ops.drop_last())[0]) by {
            if !op_valid(ops.last()) {
                assert(bad_ops(ops) == bad_ops(ops.drop_last()).push(ops.last()));
            }
        };
    } else {
        assert(!op_valid(ops.last()));
        assert(bad_ops(ops) == bad_ops(ops.drop_last()).push(ops.last()));
        assert(ops.take(smallest_bad(ops) + 1) =~= ops);
    }
}

} // verus!
