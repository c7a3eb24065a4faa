//! Rendering of the status report that is written to standard output.

use vstd::prelude::*;
use crate::records::TrainInfo;
use crate::records::is_target;
use crate::records::resolved_text;

verus! {

/// The labeled block printed for one matching record: the railway
/// identifier in brackets, the resolved text, and a separating blank
/// line.
pub open spec fn block_of(info: TrainInfo) -> Seq<char> {
    "【"@ + info.railway@ + "】\n"@ + resolved_text(info) + "\n\n"@
}

/// The blocks of all target records of the list, in input order;
/// records of other lines contribute nothing.
pub open spec fn blocks_of(infos: Seq<TrainInfo>) -> Seq<char>
    decreases infos.len(),
{
    if infos.len() == 0 {
        Seq::empty()
    } else {
        (if is_target(infos[0]) {
            block_of(infos[0])
        } else {
            Seq::empty()
        }) + blocks_of(infos.drop_first())
    }
}

/// At least one record of the list belongs to the target line.
pub open spec fn any_target(infos: Seq<TrainInfo>) -> bool {
    exists|i: int| 0 <= i < infos.len() && is_target(infos[i])
}

/// The line printed when no record belongs to the target line.
pub open spec fn fallback_line() -> Seq<char> {
    "現在、りんかい線に関する特別な運行情報（遅延・運休など）はありません。\n"@
}

/// The whole report: the blocks of the target records when there is at
/// least one, else the fixed fallback sentence.
pub open spec fn report_of(infos: Seq<TrainInfo>) -> Seq<char> {
    if any_target(infos) {
        blocks_of(infos)
    } else {
        fallback_line()
    }
}

/// Appending a record to the list appends its block when it is a
/// target record and nothing otherwise.
proof fn lemma_blocks_push(infos: Seq<TrainInfo>, info: TrainInfo)
    ensures
        blocks_of(infos.push(info)) == blocks_of(infos) + (if is_target(info) {
            block_of(info)
        } else {
            Seq::<char>::empty()
        }),
    decreases infos.len(),
{
    let part = if is_target(info) {
        block_of(info)
    } else {
        Seq::<char>::empty()
    };
    if infos.len() == 0 {
        assert(infos.push(info)[0] == info);
        assert(infos.push(info).drop_first() =~= Seq::<TrainInfo>::empty());
        assert(blocks_of(infos.push(info)) == part + blocks_of(Seq::<TrainInfo>::empty()));
        assert(part + Seq::<char>::empty() =~= part);
        assert(blocks_of(infos) + part =~= part);
    } else {
        assert(infos.push(info)[0] == infos[0]);
        assert(infos.push(info).drop_first() =~= infos.drop_first().push(info));
        lemma_blocks_push(infos.drop_first(), info);
        let head = if is_target(infos[0]) {
            block_of(infos[0])
        } else {
            Seq::<char>::empty()
        };
        assert(head + (blocks_of(infos.drop_first()) + part) =~= (head + blocks_of(
            infos.drop_first(),
        )) + part);
    }
}

/// Appending a record to the list makes it contain a target record
/// exactly when the list already did or the new record is one.
proof fn lemma_any_target_push(infos: Seq<TrainInfo>, info: TrainInfo)
    ensures
        any_target(infos.push(info)) == (any_target(infos) || is_target(info)),
{
    if is_target(info) {
        assert(infos.push(info)[infos.len() as int] == info);
        assert(any_target(infos.push(info)));
    }
    if any_target(infos) {
        let i = choose|i: int| 0 <= i < infos.len() && is_target(infos[i]);
        assert(infos.push(info)[i] == infos[i]);
        assert(any_target(infos.push(info)));
    }
    if any_target(infos.push(info)) {
        let i = choose|i: int| 0 <= i < infos.push(info).len() && is_target(infos.push(info)[i]);
        if i < infos.len() {
            assert(infos[i] == infos.push(info)[i]);
        } else {
            assert(infos.push(info)[i] == info);
        }
    }
}

/// Law: the blocks are exactly one block per target record,
/// concatenated in input order; records of other lines contribute
/// nothing.
pub proof fn lemma_blocks_one_per_target(infos: Seq<TrainInfo>)
    ensures
        blocks_of(infos) == infos.filter(|r: TrainInfo| is_target(r)).flat_map(
            |r: TrainInfo| block_of(r),
        ),
    decreases infos.len(),
{
    let pred = |r: TrainInfo| is_target(r);
    let f = |r: TrainInfo| block_of(r);
    reveal(Seq::filter);
    if infos.len() == 0 {
        assert(infos.filter(pred).map_values(f) =~= Seq::<Seq<char>>::empty());
        assert(infos.filter(pred).flat_map(f) =~= Seq::<char>::empty());
    } else {
        let t = infos.drop_last();
        let x = infos.last();
        assert(t.push(x) =~= infos);
        lemma_blocks_one_per_target(t);
        lemma_blocks_push(t, x);
        t.lemma_filter_push(x, pred);
        t.filter(pred).lemma_flat_map_push(f, x);
        if !pred(x) {
            assert(blocks_of(t) + Seq::<char>::empty() =~= blocks_of(t));
        }
    }
}

/// Law: when at least one record belongs to the target line, the
/// report is exactly the blocks of those records, in input order.
pub proof fn lemma_report_with_match(infos: Seq<TrainInfo>)
    requires
        any_target(infos),
    ensures
        report_of(infos) == infos.filter(|r: TrainInfo| is_target(r)).flat_map(
            |r: TrainInfo| block_of(r),
        ),
{
    lemma_blocks_one_per_target(infos);
}

/// Law: when no record belongs to the target line, the report is
/// exactly the fixed fallback sentence and nothing else.
pub proof fn lemma_report_without_match(infos: Seq<TrainInfo>)
    requires
        forall|i: int| 0 <= i < infos.len() ==> !is_target(infos[i]),
    ensures
        report_of(infos) == fallback_line(),
{
    assert(!any_target(infos));
}

/// Renders the block of one record.
pub fn render_block(info: &TrainInfo) -> (block: String)
    ensures
        block@ == block_of(*info),
{
    let mut block = String::from_str("【");
    block.append(info.railway.as_str());
    block.append("】\n");
    let text = info.resolve_display_text();
    block.append(text.as_str());
    block.append("\n\n");
    block
}

/// Renders the whole report for a decoded list of records.
pub fn render_report(infos: &Vec<TrainInfo>) -> (out: String)
    ensures
        out@ == report_of(infos@),
{
    let mut out = String::new();
    let mut matched = false;
    let mut i: usize = 0;
    proof {
        assert(infos@.take(0) =~= Seq::<TrainInfo>::empty());
    }
    while i < infos.len()
        invariant
            i <= infos@.len(),
            out@ == blocks_of(infos@.take(i as int)),
            matched == any_target(infos@.take(i as int)),
        decreases infos@.len() - i,
    {
        proof {
            assert(infos@.take(i + 1) =~= infos@.take(i as int).push(infos@[i as int]));
            lemma_blocks_push(infos@.take(i as int), infos@[i as int]);
            lemma_any_target_push(infos@.take(i as int), infos@[i as int]);
        }
        let info = &infos[i];
        if info.matches_target() {
            matched = true;
            let block = render_block(info);
            out.append(block.as_str());
        } else {
            proof {
                assert(out@ + Seq::<char>::empty() =~= out@);
            }
        }
        i = i + 1;
    }
    proof {
        assert(infos@.take(infos@.len() as int) =~= infos@);
    }
    if matched {
        out
    } else {
        String::from_str("現在、りんかい線に関する特別な運行情報（遅延・運休など）はありません。\n")
    }
}

} // verus!
