//! The announcement record and the resolution of its display text.

use vstd::prelude::*;
use crate::matching::contains_seq;
use crate::matching::target_keyword;
use crate::matching::railway_matches;

verus! {

/// One operator's current status announcement.
///
/// `railway` identifies the line; `text` is the published mapping from
/// language code to status message, absent when no free text exists.
/// The mapping is held as key/value pairs, their order unspecified;
/// a decoded mapping carries each key once, and resolution reads the
/// first `"ja"` entry.
pub struct TrainInfo {
    pub railway: String,
    pub text: Option<Vec<(String, String)>>,
}

/// The value of the first pair whose key is `key`, if any.
pub open spec fn lookup(pairs: Seq<(String, String)>, key: Seq<char>) -> Option<Seq<char>>
    decreases pairs.len(),
{
    if pairs.len() == 0 {
        None
    } else if pairs[0].0@ == key {
        Some(pairs[0].1@)
    } else {
        lookup(pairs.drop_first(), key)
    }
}

/// The fallback shown when no Japanese text is published.
pub open spec fn no_info_text() -> Seq<char> {
    "情報なし"@
}

/// The Japanese language code.
pub open spec fn ja_key() -> Seq<char> {
    "ja"@
}

/// The text displayed for a record: its `"ja"` entry when the mapping
/// is present and holds one, else the fixed fallback.
pub open spec fn resolved_text(info: TrainInfo) -> Seq<char> {
    match info.text {
        Some(pairs) => match lookup(pairs@, ja_key()) {
            Some(t) => t,
            None => no_info_text(),
        },
        None => no_info_text(),
    }
}

/// The record belongs to the target line.
pub open spec fn is_target(info: TrainInfo) -> bool {
    contains_seq(info.railway@, target_keyword())
}

/// A key that no pair of the mapping carries is not found.
proof fn lemma_lookup_none(pairs: Seq<(String, String)>, key: Seq<char>)
    requires
        forall|i: int| 0 <= i < pairs.len() ==> pairs[i].0@ != key,
    ensures
        lookup(pairs, key) is None,
    decreases pairs.len(),
{
    if pairs.len() > 0 {
        assert forall|i: int| 0 <= i < pairs.drop_first().len() implies pairs.drop_first()[i].0@
            != key by {
            assert(pairs.drop_first()[i] == pairs[i + 1]);
        }
        lemma_lookup_none(pairs.drop_first(), key);
    }
}

/// The lookup returns the value of the first pair that carries the key.
proof fn lemma_lookup_first(pairs: Seq<(String, String)>, key: Seq<char>, j: int)
    requires
        0 <= j < pairs.len(),
        pairs[j].0@ == key,
        forall|i: int| 0 <= i < j ==> pairs[i].0@ != key,
    ensures
        lookup(pairs, key) == Some(pairs[j].1@),
    decreases j,
{
    if j > 0 {
        assert(pairs.drop_first()[j - 1] == pairs[j]);
        assert forall|i: int| 0 <= i < j - 1 implies pairs.drop_first()[i].0@ != key by {
            assert(pairs.drop_first()[i] == pairs[i + 1]);
        }
        lemma_lookup_first(pairs.drop_first(), key, j - 1);
    }
}

/// Law: a record without a text mapping resolves to the fixed
/// fallback.
pub proof fn lemma_resolved_text_absent(info: TrainInfo)
    requires
        info.text is None,
    ensures
        resolved_text(info) == no_info_text(),
{
}

/// Law: a record whose text mapping carries no `"ja"` key resolves to
/// the fixed fallback.
pub proof fn lemma_resolved_text_without_ja(info: TrainInfo)
    requires
        info.text is Some,
        forall|i: int| 0 <= i < info.text->0@.len() ==> info.text->0@[i].0@ != ja_key(),
    ensures
        resolved_text(info) == no_info_text(),
{
    lemma_lookup_none(info.text->0@, ja_key());
}

/// Law: a record whose text mapping carries a `"ja"` entry resolves to
/// the value of the first such entry.
pub proof fn lemma_resolved_text_with_ja(info: TrainInfo, j: int)
    requires
        info.text is Some,
        0 <= j < info.text->0@.len(),
        info.text->0@[j].0@ == ja_key(),
        forall|i: int| 0 <= i < j ==> info.text->0@[i].0@ != ja_key(),
    ensures
        resolved_text(info) == info.text->0@[j].1@,
{
    lemma_lookup_first(info.text->0@, ja_key(), j);
}

impl TrainInfo {
    /// Whether this record's railway identifier mentions the keyword.
    pub fn matches_target(&self) -> (found: bool)
        ensures
            found == is_target(*self),
    {
        railway_matches(self.railway.as_str())
    }

    /// Resolves the display text: the `"ja"` entry of the mapping when
    /// there is one, else the fixed fallback.
    pub fn resolve_display_text(&self) -> (text: String)
        ensures
            text@ == resolved_text(*self),
    {
        let ja = String::from_str("ja");
        match self.text {
            None => String::from_str("情報なし"),
            Some(ref pairs) => {
                proof {
                    assert(pairs@.skip(0) =~= pairs@);
                }
                let mut i: usize = 0;
                while i < pairs.len()
                    invariant
                        i <= pairs.len(),
                        ja@ == ja_key(),
                        self.text is Some,
                        self.text->0 == *pairs,
                        lookup(pairs@, ja_key()) == lookup(pairs@.skip(i as int), ja_key()),
                    decreases pairs.len() - i,
                {
                    proof {
                        assert(pairs@.skip(i as int)[0] == pairs@[i as int]);
                        assert(pairs@.skip(i as int).drop_first() =~= pairs@.skip(i + 1));
                    }
                    if pairs[i].0 == ja {
                        let found = pairs[i].1.clone();
                        proof {
                            assert(lookup(pairs@.skip(i as int), ja_key()) == Some(
                                pairs@[i as int].1@,
                            ));
                        }
                        return found;
                    }
                    i = i + 1;
                }
                proof {
                    assert(pairs@.skip(i as int) =~= Seq::<(String, String)>::empty());
                }
                String::from_str("情報なし")
            },
        }
    }
}

} // verus!
