//! The kernel's account of memory: lines of a label, a number and a unit.
use vstd::prelude::*;

use crate::text::{
    begins_with, chars_of, items, items_of, opt_view, pieces_of, split, starts_with, text_of,
    Separator,
};

verus! {

/// The first word of a text.
pub open spec fn first_word(s: Seq<char>) -> Option<Seq<char>> {
    let words = items(s, Separator::White);
    if words.len() == 0 {
        None
    } else {
        Some(words[0])
    }
}

/// For each line that begins with the label, the first word behind it.
pub open spec fn labelled(lines: Seq<Seq<char>>, label: Seq<char>) -> Seq<Option<Seq<char>>>
    decreases lines.len(),
{
    if lines.len() == 0 {
        Seq::empty()
    } else {
        let head = labelled(lines.drop_last(), label);
        if starts_with(lines.last(), label) {
            head.push(first_word(lines.last().skip(label.len() as int)))
        } else {
            head
        }
    }
}

/// The views of optional texts.
pub open spec fn opt_views(v: Seq<Option<String>>) -> Seq<Option<Seq<char>>> {
    v.map_values(|o: Option<String>| opt_view(o))
}

fn word_behind(line: &str, label: &str) -> (r: Option<String>)
    requires
        starts_with(line@, label@),
    ensures
        opt_view(r) == first_word(line@.skip(label@.len() as int)),
{
    let v = chars_of(line);
    let n: usize = label.unicode_len();
    let rest = text_of(&v, n, v.len());
    assert(rest@ =~= line@.skip(label@.len() as int));
    let words = items_of(rest.as_str(), Separator::White);
    let ghost all = crate::text::views(words@);
    if words.len() == 0 {
        None
    } else {
        assert(all[0] == words@[0]@);
        Some(words[0].clone())
    }
}

/// For each line of the text that begins with the label, the first word behind it.
pub fn labelled_words(text: &str, label: &str) -> (r: Vec<Option<String>>)
    ensures
        opt_views(r@) == labelled(split(text@, Separator::Line), label@),
{
    let lines = pieces_of(text, Separator::Line);
    let ghost all = crate::text::views(lines@);
    let mut r: Vec<Option<String>> = Vec::new();
    let mut i: usize = 0;
    proof {
        assert(all.take(0) =~= Seq::empty());
        assert(opt_views(r@) =~= Seq::empty());
    }
    while i < lines.len()
        invariant
            i <= lines.len(),
            all == crate::text::views(lines@),
            opt_views(r@) == labelled(all.take(i as int), label@),
        decreases lines.len() - i,
    {
        let ghost held = opt_views(r@);
        proof {
            assert(all[i as int] == lines@[i as int]@);
            assert(all.take(i + 1).drop_last() =~= all.take(i as int));
            assert(all.take(i + 1).last() == lines@[i as int]@);
        }
        if begins_with(lines[i].as_str(), label) {
            let word = word_behind(lines[i].as_str(), label);
            let ghost found = opt_view(word);
            r.push(word);
            assert(opt_views(r@) =~= held.push(found));
        }
        i = i + 1;
    }
    assert(all.take(all.len() as int) =~= all);
    r
}

/// The memory that is available, in kilobytes as it is written: for each line that tells of it.
pub fn available_kb(meminfo: &str) -> (r: Vec<Option<String>>)
    ensures
        opt_views(r@) == labelled(split(meminfo@, Separator::Line), "MemAvailable:"@),
{
    labelled_words(meminfo, "MemAvailable:")
}

/// The memory in all, in kilobytes as the first line that tells of it writes it.
pub fn total_kb(meminfo: &str) -> (r: Option<String>)
    ensures
        opt_view(r) == ({
            let words = labelled(split(meminfo@, Separator::Line), "MemTotal:"@);
            if words.len() == 0 {
                None
            } else {
                words[0]
            }
        }),
{
    let words = labelled_words(meminfo, "MemTotal:");
    let ghost all = opt_views(words@);
    if words.len() == 0 {
        None
    } else {
        assert(all[0] == opt_view(words@[0]));
        match &words[0] {
            Some(w) => Some(w.clone()),
            None => None,
        }
    }
}

/// What the host is made of. `G` is a memory size as the host samples it.
#[derive(Debug, Clone, Copy, PartialEq)]
pub struct SubstrateInfo<G> {
    pub vram_carveout_gb: G,
    pub gtt_total_gb: G,
    pub system_ram_gb: G,
}

/// What the host is made of, where all of it could be read.
pub fn read_substrate_info<G>(vram: Option<G>, gtt: Option<G>, ram: Option<G>) -> (r: Option<
    SubstrateInfo<G>,
>)
    ensures
        match (vram, gtt, ram) {
            (Some(v), Some(g), Some(m)) => r == Some(
                SubstrateInfo { vram_carveout_gb: v, gtt_total_gb: g, system_ram_gb: m },
            ),
            _ => r is None,
        },
{
    match (vram, gtt, ram) {
        (Some(vram_carveout_gb), Some(gtt_total_gb), Some(system_ram_gb)) => Some(
            SubstrateInfo { vram_carveout_gb, gtt_total_gb, system_ram_gb },
        ),
        _ => None,
    }
}

/// Every line that begins with the label gives the first word behind it, in order; other lines give
/// nothing.
pub proof fn law_labelled_lines_give_their_word(
    before: Seq<Seq<char>>,
    label: Seq<char>,
    rest: Seq<char>,
    line: Seq<char>,
)
    ensures
        labelled(Seq::empty(), label) == Seq::<Option<Seq<char>>>::empty(),
        labelled(before.push(label + rest), label) == labelled(before, label).push(
            first_word(rest),
        ),
        !starts_with(line, label) ==> labelled(before.push(line), label) == labelled(before, label),
{
    crate::text::law_words_in_a_text(Seq::empty(), label, rest, Seq::empty());
    assert(before.push(label + rest).drop_last() =~= before);
    assert((label + rest).skip(label.len() as int) =~= rest);
    assert(before.push(line).drop_last() =~= before);
}

/// The first word is the first of the words between white space.
pub proof fn law_first_word_is_the_first(s: Seq<char>)
    ensures
        first_word(s) is None <==> items(s, Separator::White).len() == 0,
        items(s, Separator::White).len() > 0 ==> first_word(s) == Some(
            items(s, Separator::White)[0],
        ),
{
}

} // verus!
