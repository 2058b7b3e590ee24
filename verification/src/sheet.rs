//! Command sheets: the order in which their commands run, and which ones a tag selects.
use vstd::prelude::*;
use crate::command::CommandItem;

verus! {

broadcast use vstd::string::group_string_axioms;

/// Holds of the commands with index `k`.
pub open spec fn with_index(k: u32) -> spec_fn(CommandItem) -> bool {
    |c: CommandItem| c.index == k
}

/// Holds of the commands tagged `tag`.
pub open spec fn with_tag(tag: Seq<char>) -> spec_fn(CommandItem) -> bool {
    |c: CommandItem| c.tag@ == tag
}

/// The commands are in ascending order of index.
pub open spec fn index_sorted(s: Seq<CommandItem>) -> bool {
    forall|i: int, j: int| 0 <= i < j < s.len() ==> s[i].index <= s[j].index
}

/// `r` is `s` stably sorted by index: ascending indices, and for every index the commands with
/// that index in their original order.
pub open spec fn stably_sorted(r: Seq<CommandItem>, s: Seq<CommandItem>) -> bool {
    &&& index_sorted(r)
    &&& forall|k: u32| #[trigger] r.filter(with_index(k)) == s.filter(with_index(k))
}

proof fn lemma_filter_none(s: Seq<CommandItem>, p: spec_fn(CommandItem) -> bool)
    requires
        forall|i: int| 0 <= i < s.len() ==> !p(#[trigger] s[i]),
    ensures
        s.filter(p) == Seq::<CommandItem>::empty(),
    decreases s.len(),
{
    reveal_with_fuel(Seq::<CommandItem>::filter, 1);
    if s.len() > 0 {
        assert forall|i: int| 0 <= i < s.drop_last().len() implies !p(#[trigger] s.drop_last()[i]) by {
            assert(s.drop_last()[i] == s[i]);
        }
        lemma_filter_none(s.drop_last(), p);
        assert(!p(s[s.len() - 1]));
    }
}

proof fn lemma_filter_single(c: CommandItem, p: spec_fn(CommandItem) -> bool)
    ensures
        seq![c].filter(p) == if p(c) {
            seq![c]
        } else {
            Seq::<CommandItem>::empty()
        },
{
    reveal_with_fuel(Seq::<CommandItem>::filter, 1);
    assert(seq![c].drop_last() =~= Seq::<CommandItem>::empty());
    assert(seq![c].last() == c);
    assert(Seq::<CommandItem>::empty().filter(p) =~= Seq::<CommandItem>::empty());
    assert(Seq::<CommandItem>::empty().push(c) =~= seq![c]);
}

/// `sort_by_key(|c| c.index)`: the order in which a sheet's commands run (a stable sort).
pub fn sort_sheet(commands: Vec<CommandItem>) -> (r: Vec<CommandItem>)
    ensures
        stably_sorted(r@, commands@),
{
    let ghost orig = commands@;
    let mut rest = commands;
    let mut out: Vec<CommandItem> = Vec::new();
    assert(orig.skip(orig.len() as int) =~= Seq::<CommandItem>::empty());
    assert forall|k: u32| #[trigger] out@.filter(with_index(k)) == orig.skip(rest@.len() as int).filter(
        with_index(k),
    ) by {
        assert(out@ =~= Seq::<CommandItem>::empty());
    }
    while rest.len() > 0
        invariant
            rest@ == orig.take(rest@.len() as int),
            rest@.len() <= orig.len(),
            index_sorted(out@),
            forall|k: u32| #[trigger]
                out@.filter(with_index(k)) == orig.skip(rest@.len() as int).filter(with_index(k)),
        decreases rest@.len(),
    {
        let ghost i = rest@.len() as int;
        let c = rest.pop().unwrap();
        assert(c == orig[i - 1]);
        assert(rest@ =~= orig.take(i - 1));
        let mut p: usize = 0;
        while p < out.len() && out[p].index < c.index
            invariant
                p <= out@.len(),
                forall|j: int| 0 <= j < p ==> (#[trigger] out@[j]).index < c.index,
            decreases out@.len() - p,
        {
            p = p + 1;
        }
        let ghost before = out@;
        out.insert(p, c);
        proof {
            let lo = before.take(p as int);
            let hi = before.skip(p as int);
            assert(before =~= lo + hi);
            assert(out@ =~= lo + seq![c] + hi);
            assert(orig.skip(i - 1) =~= seq![c] + orig.skip(i));
            assert forall|j: int| 0 <= j < hi.len() implies (#[trigger] hi[j]).index >= c.index by {
                assert(before[p as int].index >= c.index);
                assert(hi[j] == before[p + j]);
            }
            assert forall|k: u32| #[trigger]
                out@.filter(with_index(k)) == orig.skip(i - 1).filter(with_index(k)) by {
                let wk = with_index(k);
                Seq::filter_distributes_over_add(lo + seq![c], hi, wk);
                Seq::filter_distributes_over_add(lo, seq![c], wk);
                Seq::filter_distributes_over_add(lo, hi, wk);
                Seq::filter_distributes_over_add(seq![c], orig.skip(i), wk);
                lemma_filter_single(c, wk);
                if k == c.index {
                    assert forall|j: int| 0 <= j < lo.len() implies !wk(#[trigger] lo[j]) by {
                        assert(lo[j] == before[j]);
                    }
                    lemma_filter_none(lo, wk);
                    assert(lo.filter(wk) + hi.filter(wk) =~= hi.filter(wk));
                    assert(lo.filter(wk) + seq![c] =~= seq![c]);
                } else {
                    assert(seq![c].filter(wk) =~= Seq::<CommandItem>::empty());
                    assert(lo.filter(wk) + Seq::<CommandItem>::empty() =~= lo.filter(wk));
                    assert(Seq::<CommandItem>::empty() + orig.skip(i).filter(wk) =~= orig.skip(
                        i,
                    ).filter(wk));
                }
                assert(before.filter(wk) == orig.skip(i).filter(wk));
            }
            assert forall|a: int, b: int| 0 <= a < b < out@.len() implies out@[a].index
                <= out@[b].index by {
                if b < p {
                    assert(out@[a] == before[a] && out@[b] == before[b]);
                } else if b == p {
                    assert(out@[a] == before[a]);
                } else if a < p {
                    assert(out@[a] == before[a] && out@[b] == before[b - 1]);
                } else if a == p {
                    assert(out@[b] == hi[b - p - 1]);
                } else {
                    assert(out@[a] == before[a - 1] && out@[b] == before[b - 1]);
                }
            }
        }
    }
    assert(orig.skip(0) =~= orig);
    out
}

/// The commands of `commands` tagged `tag`, in their order.
pub fn filter_by_tag(commands: Vec<CommandItem>, tag: &str) -> (r: Vec<CommandItem>)
    ensures
        r@ == commands@.filter(with_tag(tag@)),
{
    let ghost orig = commands@;
    let wanted = String::from_str(tag);
    let total = commands.len();
    let mut rest = commands;
    let mut out: Vec<CommandItem> = Vec::new();
    let mut done: usize = 0;
    assert(orig.take(0) =~= Seq::<CommandItem>::empty());
    while rest.len() > 0
        invariant
            done + rest@.len() == orig.len(),
            rest@ == orig.skip(done as int),
            out@ == orig.take(done as int).filter(with_tag(tag@)),
            wanted@ == tag@,
            orig.len() == total,
        decreases rest@.len(),
    {
        reveal_with_fuel(Seq::<CommandItem>::filter, 1);
        let c = rest.remove(0);
        assert(c == orig[done as int]);
        assert(rest@ =~= orig.skip(done + 1));
        let ghost t = orig.take(done + 1);
        assert(t.drop_last() =~= orig.take(done as int));
        assert(t.last() == c);
        if c.tag == wanted {
            out.push(c);
        }
        done = done + 1;
    }
    assert(orig.take(orig.len() as int) =~= orig);
    out
}

/// The commands that `run` executes, in execution order: those tagged `tag` (all of them when
/// no tag is given), stably sorted by index.
pub fn sheet_to_run(commands: Vec<CommandItem>, tag: Option<&str>) -> (r: Vec<CommandItem>)
    ensures
        match tag {
            None => stably_sorted(r@, commands@),
            Some(t) => stably_sorted(r@, commands@.filter(with_tag(t@))),
        },
{
    match tag {
        None => sort_sheet(commands),
        Some(t) => sort_sheet(filter_by_tag(commands, t)),
    }
}

} // verus!
