//! From the reaction tallies of a message to the decision whether it goes on
//! the board, and to the text of its entry.

use vstd::prelude::*;
use crate::decimal::{decimal, push_decimal};

verus! {

/// How often one emoji was used on a message.
#[derive(Debug, PartialEq, Eq)]
pub struct Tally {
    /// The emoji as the chat service displays it.
    pub emoji: String,
    /// The number of reactions with this emoji.
    pub count: u64,
}

impl View for Tally {
    type V = (Seq<char>, u64);

    open spec fn view(&self) -> (Seq<char>, u64) {
        (self.emoji@, self.count)
    }
}

impl DeepView for Tally {
    type V = (Seq<char>, u64);

    open spec fn deep_view(&self) -> (Seq<char>, u64) {
        self@
    }
}

/// What the aggregator concluded from one set of tallies.
#[derive(Debug)]
pub struct PublishDecision {
    /// Whether the message belongs on the board.
    pub should_publish: bool,
    /// The text of its board entry.
    pub summary: String,
}

/// What separates two tallies in a summary: two spaces, a middle dot, two
/// spaces.
pub open spec fn separator() -> Seq<char> {
    seq![' ', ' ', '\u{b7}', ' ', ' ']
}

/// Whether a tally reaches the threshold.
pub open spec fn qualifies(tally: (Seq<char>, u64), threshold: u64) -> bool {
    tally.1 >= threshold
}

/// The tallies that reach the threshold, in the order in which they stand.
pub open spec fn qualifying(tallies: Seq<(Seq<char>, u64)>, threshold: u64) -> Seq<
    (Seq<char>, u64),
> {
    tallies.filter(|t: (Seq<char>, u64)| qualifies(t, threshold))
}

/// A message is published when at least one of its tallies reaches the
/// threshold.
pub open spec fn should_publish(tallies: Seq<(Seq<char>, u64)>, threshold: u64) -> bool {
    exists|i: int| 0 <= i < tallies.len() && qualifies(#[trigger] tallies[i], threshold)
}

/// One tally as text: the emoji, a space, the count in base ten.
pub open spec fn rendered(tally: (Seq<char>, u64)) -> Seq<char> {
    tally.0 + seq![' '] + decimal(tally.1 as nat)
}

/// The parts in order, with `sep` between each two neighbours.
pub open spec fn joined(parts: Seq<Seq<char>>, sep: Seq<char>) -> Seq<char>
    decreases parts.len(),
{
    if parts.len() == 0 {
        Seq::empty()
    } else if parts.len() == 1 {
        parts[0]
    } else {
        joined(parts.drop_last(), sep) + sep + parts.last()
    }
}

/// The summary of a set of tallies: those that reach the threshold, each
/// rendered, in their order, with the separator between them.
pub open spec fn summary(tallies: Seq<(Seq<char>, u64)>, threshold: u64) -> Seq<char> {
    joined(
        qualifying(tallies, threshold).map_values(|t: (Seq<char>, u64)| rendered(t)),
        separator(),
    )
}

/// The places in `tallies` of those that reach the threshold, in rising
/// order.
pub open spec fn qualifying_positions(tallies: Seq<(Seq<char>, u64)>, threshold: u64) -> Seq<int>
    decreases tallies.len(),
{
    if tallies.len() == 0 {
        Seq::empty()
    } else {
        let earlier = qualifying_positions(tallies.drop_last(), threshold);
        if qualifies(tallies.last(), threshold) {
            earlier.push(tallies.len() - 1)
        } else {
            earlier
        }
    }
}

/// The tallies that reach the threshold are those at the qualifying
/// positions, which rise strictly and leave out no tally that qualifies: the
/// selection keeps exactly the qualifying tallies, each once, in the order in
/// which they stand.
pub proof fn lemma_qualifying_keeps_order(tallies: Seq<(Seq<char>, u64)>, threshold: u64)
    ensures
        ({
            let kept = qualifying(tallies, threshold);
            let at = qualifying_positions(tallies, threshold);
            &&& kept.len() == at.len()
            &&& forall|j: int|
                0 <= j < at.len() ==> 0 <= #[trigger] at[j] < tallies.len() && kept[j]
                    == tallies[at[j]] && qualifies(kept[j], threshold)
            &&& forall|j: int, k: int| 0 <= j < k < at.len() ==> #[trigger] at[j] < #[trigger] at[k]
            &&& forall|i: int|
                0 <= i < tallies.len() && qualifies(#[trigger] tallies[i], threshold)
                    ==> at.contains(i)
        }),
    decreases tallies.len(),
{
    reveal(Seq::filter);
    if tallies.len() > 0 {
        let shorter = tallies.drop_last();
        lemma_qualifying_keeps_order(shorter, threshold);
        let at = qualifying_positions(tallies, threshold);
        let earlier = qualifying_positions(shorter, threshold);
        assert forall|i: int|
            0 <= i < tallies.len() && qualifies(#[trigger] tallies[i], threshold) implies at.contains(
            i,
        ) by {
            if i < shorter.len() {
                assert(shorter[i] == tallies[i]);
                let j = choose|j: int| 0 <= j < earlier.len() && earlier[j] == i;
                assert(at[j] == i);
            } else {
                assert(at[at.len() - 1] == i);
            }
        }
    }
}

/// Where no tally reaches the threshold, nothing is published.
pub proof fn lemma_none_qualifies_none_published(tallies: Seq<(Seq<char>, u64)>, threshold: u64)
    requires
        forall|i: int| 0 <= i < tallies.len() ==> (#[trigger] tallies[i]).1 < threshold,
    ensures
        !should_publish(tallies, threshold),
        qualifying(tallies, threshold).len() == 0,
        summary(tallies, threshold) == Seq::<char>::empty(),
{
    lemma_qualifying_keeps_order(tallies, threshold);
    let kept = qualifying(tallies, threshold);
    if kept.len() > 0 {
        let at = qualifying_positions(tallies, threshold);
        assert(qualifies(tallies[at[0]], threshold));
    }
}

/// Where a tally reaches the threshold, the message is published, and its
/// summary is made of exactly the tallies that reach it, in the order in
/// which they stand: the rendered tallies at the qualifying positions, which
/// rise strictly and are the places of all the tallies that qualify and of
/// no others.
pub proof fn lemma_some_qualifies_all_listed(
    tallies: Seq<(Seq<char>, u64)>,
    threshold: u64,
    i: int,
)
    requires
        0 <= i < tallies.len(),
        tallies[i].1 >= threshold,
    ensures
        should_publish(tallies, threshold),
        ({
            let at = qualifying_positions(tallies, threshold);
            &&& summary(tallies, threshold) == joined(
                Seq::new(at.len(), |j: int| rendered(tallies[at[j]])),
                separator(),
            )
            &&& at.contains(i)
            &&& forall|j: int|
                0 <= j < at.len() ==> 0 <= #[trigger] at[j] < tallies.len() && tallies[at[j]].1
                    >= threshold
            &&& forall|k: int|
                0 <= k < tallies.len() && (#[trigger] tallies[k]).1 >= threshold ==> at.contains(k)
            &&& forall|j: int, k: int| 0 <= j < k < at.len() ==> #[trigger] at[j] < #[trigger] at[k]
        }),
{
    lemma_qualifying_keeps_order(tallies, threshold);
    assert(qualifies(tallies[i], threshold));
    let kept = qualifying(tallies, threshold);
    let at = qualifying_positions(tallies, threshold);
    assert(kept.map_values(|t: (Seq<char>, u64)| rendered(t)) =~= Seq::new(
        at.len(),
        |j: int| rendered(tallies[at[j]]),
    ));
    assert forall|k: int|
        0 <= k < tallies.len() && (#[trigger] tallies[k]).1 >= threshold implies at.contains(
        k,
    ) by {
        assert(qualifies(tallies[k], threshold));
    }
}

/// `itertools::Itertools::join` on the entries: the result holds each entry
/// as it is written, in order, and `sep` between each two. Before it writes,
/// the call reserves `sep.len()` bytes for every entry after the first, so
/// that product has to be a size that a `String` can have.
#[verifier::external_body]
fn join_entries(entries: &Vec<String>, sep: &str) -> (text: String)
    requires
        sep.len() * entries.len() <= isize::MAX,
    ensures
        text@ == joined(entries.deep_view(), sep@),
{
    itertools::Itertools::join(&mut entries.iter(), sep)
}

/// The separator as text.
pub fn separator_text() -> (sep: &'static str)
    ensures
        sep@ == separator(),
{
    let sep = "  \u{b7}  ";
    proof {
        reveal_strlit("  \u{b7}  ");
        assert(sep@ =~= separator());
    }
    sep
}

/// Joining one part more: the earlier result, the separator unless it is the
/// first part, then the part.
pub proof fn lemma_joined_push(parts: Seq<Seq<char>>, part: Seq<char>, sep: Seq<char>)
    ensures
        joined(parts.push(part), sep) == if parts.len() == 0 {
            part
        } else {
            joined(parts, sep) + sep + part
        },
{
    assert(parts.push(part).drop_last() =~= parts);
}

/// The entries in order with `sep` between them, written one after another.
fn concat_entries(entries: &Vec<String>, sep: &str) -> (text: String)
    ensures
        text@ == joined(entries.deep_view(), sep@),
{
    let mut text = String::new();
    let mut i: usize = 0;
    while i < entries.len()
        invariant
            i <= entries.len(),
            text@ == joined(entries.deep_view().subrange(0, i as int), sep@),
        decreases entries.len() - i,
    {
        proof {
            let before = entries.deep_view().subrange(0, i as int);
            lemma_joined_push(before, entries[i as int]@, sep@);
            assert(before.push(entries[i as int]@) =~= entries.deep_view().subrange(0, i + 1));
        }
        if i > 0 {
            text.append(sep);
        }
        text.append(entries[i].as_str());
        assert(text@ =~= joined(entries.deep_view().subrange(0, i + 1), sep@));
        i += 1;
    }
    assert(entries.deep_view().subrange(0, i as int) =~= entries.deep_view());
    text
}

/// The entries in order with `sep` between them. Entries too many for
/// their separators to be reserved at once are written one after another.
fn join_with(entries: &Vec<String>, sep: &str) -> (text: String)
    ensures
        text@ == joined(entries.deep_view(), sep@),
{
    let width = sep.len();
    let limit: usize = isize::MAX as usize;
    if width == 0 || entries.len() <= limit / width {
        assert(sep.len() * entries.len() <= isize::MAX) by (nonlinear_arith)
            requires
                width == sep.len(),
                width == 0 || entries.len() <= limit / width,
                limit == isize::MAX,
        ;
        join_entries(entries, sep)
    } else {
        concat_entries(entries, sep)
    }
}

/// One tally as text.
pub fn render_tally(tally: &Tally) -> (text: String)
    ensures
        text@ == rendered(tally@),
{
    let mut text = tally.emoji.clone();
    proof {
        reveal_strlit(" ");
    }
    text.append(" ");
    push_decimal(&mut text, tally.count);
    assert(text@ =~= rendered(tally@));
    text
}

/// Decides whether a message with these tallies is published, and renders
/// its summary.
pub fn decide(tallies: &Vec<Tally>, threshold: u64) -> (decision: PublishDecision)
    ensures
        decision.should_publish == should_publish(tallies.deep_view(), threshold),
        decision.summary@ == summary(tallies.deep_view(), threshold),
{
    let ghost all = tallies.deep_view();
    let ghost keep = |t: (Seq<char>, u64)| qualifies(t, threshold);
    let ghost render = |t: (Seq<char>, u64)| rendered(t);
    let mut entries: Vec<String> = Vec::new();
    let mut i: usize = 0;
    proof {
        reveal(Seq::filter);
        assert(all.subrange(0, 0) =~= Seq::empty());
        assert(entries.deep_view() =~= all.subrange(0, 0).filter(keep).map_values(render));
    }
    while i < tallies.len()
        invariant
            i <= tallies.len(),
            all == tallies.deep_view(),
            keep == |t: (Seq<char>, u64)| qualifies(t, threshold),
            render == |t: (Seq<char>, u64)| rendered(t),
            entries.deep_view() == all.subrange(0, i as int).filter(keep).map_values(render),
            entries.len() > 0 <==> should_publish(all.subrange(0, i as int), threshold),
        decreases tallies.len() - i,
    {
        let tally = &tallies[i];
        let ghost before = all.subrange(0, i as int);
        let ghost after = all.subrange(0, i + 1);
        proof {
            reveal(Seq::filter);
            assert(after.drop_last() =~= before);
            assert(after.last() == tally@);
            assert(should_publish(after, threshold) <==> should_publish(before, threshold)
                || qualifies(tally@, threshold)) by {
                if should_publish(after, threshold) {
                    let k = choose|k: int|
                        0 <= k < after.len() && qualifies(#[trigger] after[k], threshold);
                    if k < i {
                        assert(before[k] == after[k]);
                    }
                }
                if should_publish(before, threshold) {
                    let k = choose|k: int|
                        0 <= k < before.len() && qualifies(#[trigger] before[k], threshold);
                    assert(after[k] == before[k]);
                }
                if qualifies(tally@, threshold) {
                    assert(after[i as int] == tally@);
                }
            }
        }
        if tally.count >= threshold {
            let text = render_tally(tally);
            let ghost old_entries = entries.deep_view();
            entries.push(text);
            assert(entries.deep_view() =~= old_entries.push(rendered(tally@)));
            assert(after.filter(keep) =~= before.filter(keep).push(tally@));
            assert(entries.deep_view() =~= after.filter(keep).map_values(render));
        } else {
            assert(after.filter(keep) =~= before.filter(keep));
        }
        i += 1;
    }
    assert(all.subrange(0, i as int) =~= all);
    let publish = entries.len() > 0;
    let text = join_with(&entries, separator_text());
    PublishDecision { should_publish: publish, summary: text }
}

} // verus!
