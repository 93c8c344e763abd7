//! The filter graph that mixes many tracks into one stream.
//!
//! The encoder's `amix` filter takes at most [`MAX_MIX_INPUTS`] streams. Tracks are
//! therefore mixed in stages: a stage that would grow past the limit is closed, and its
//! output (a carry-over stream) becomes the first input of the next stage.

use vstd::prelude::*;
use crate::text::{decimal, push_decimal};

verus! {

/// The most streams one `amix` stage may take.
pub const MAX_MIX_INPUTS: usize = 32;

/// A stream that feeds a mixing stage: a prepared track, or the output of an earlier stage.
#[derive(Debug, Clone, Copy, PartialEq, Eq, Structural)]
pub enum MixSource {
    Track(usize),
    Carry(usize),
}

/// The tracks `a .. b`, in order.
pub open spec fn track_run(a: nat, b: nat) -> Seq<MixSource> {
    Seq::new((b - a) as nat, |j: int| MixSource::Track((a + j) as usize))
}

/// Groups `sources` into stages of at most 32 streams. Each stage is its inputs and the
/// carry-over stream it produces (`None` for the last stage, which yields the result).
/// Carry-over streams are numbered from `k`.
#[verifier::opaque]
pub open spec fn chain_stages(sources: Seq<MixSource>, k: nat) -> Seq<(Seq<MixSource>, Option<nat>)>
    decreases sources.len(),
{
    if sources.len() <= 32 {
        seq![(sources, None)]
    } else {
        seq![(sources.take(32), Some(k))] + chain_stages(
            seq![MixSource::Carry(k as usize)] + sources.skip(32),
            k + 1,
        )
    }
}

/// The mixing stages for `n` tracks.
pub open spec fn mix_stages(n: nat) -> Seq<(Seq<MixSource>, Option<nat>)> {
    chain_stages(track_run(0, n), 0)
}

/// The link label of a stream.
pub open spec fn source_label(s: MixSource) -> Seq<char> {
    match s {
        MixSource::Track(i) => "[aud"@ + decimal(i as nat) + "]"@,
        MixSource::Carry(k) => "[mix"@ + decimal(k as nat) + "]"@,
    }
}

/// The labels of `s`, one after another.
#[verifier::opaque]
pub open spec fn labels_text(s: Seq<MixSource>) -> Seq<char>
    decreases s.len(),
{
    if s.len() == 0 {
        Seq::empty()
    } else {
        labels_text(s.drop_last()) + source_label(s.last())
    }
}

/// What follows the input count of each `amix` stage.
pub open spec fn mix_suffix(normalize: bool) -> Seq<char> {
    if normalize {
        ",dynaudnorm"@
    } else {
        Seq::empty()
    }
}

/// One mixing stage as filter-graph text.
pub open spec fn stage_text(stage: (Seq<MixSource>, Option<nat>), normalize: bool) -> Seq<char> {
    labels_text(stage.0) + "amix="@ + decimal(stage.0.len()) + mix_suffix(normalize) + match stage.1 {
        Some(k) => source_label(MixSource::Carry(k as usize)) + ";"@,
        None => "[aud]"@,
    }
}

/// Consecutive mixing stages as filter-graph text.
#[verifier::opaque]
pub open spec fn stages_text(stages: Seq<(Seq<MixSource>, Option<nat>)>, normalize: bool) -> Seq<char>
    decreases stages.len(),
{
    if stages.len() == 0 {
        Seq::empty()
    } else {
        stage_text(stages[0], normalize) + stages_text(stages.drop_first(), normalize)
    }
}

/// The per-track filter: input `i`, normalized or passed through, labelled as track `i`.
pub open spec fn track_filter_text(i: nat, normalize: bool) -> Seq<char> {
    "["@ + decimal(i) + ":a]"@ + (if normalize {
        "dynaudnorm"@
    } else {
        "anull"@
    }) + source_label(MixSource::Track(i as usize)) + ";"@
}

/// The per-track filters of tracks `0 .. n`.
pub open spec fn track_filters_text(n: nat, normalize: bool) -> Seq<char>
    decreases n,
{
    if n == 0 {
        Seq::empty()
    } else {
        track_filters_text((n - 1) as nat, normalize) + track_filter_text((n - 1) as nat, normalize)
    }
}

/// The whole filter graph that mixes `n` tracks into the stream labelled `[aud]`.
pub open spec fn filter_graph(n: nat, normalize: bool) -> Seq<char> {
    track_filters_text(n, normalize) + stages_text(mix_stages(n), normalize)
}

/// The streams waiting to be mixed: an optional carry-over stream, then tracks `pos .. n`.
pub open spec fn pending(carry: Option<usize>, pos: nat, n: nat) -> Seq<MixSource> {
    match carry {
        Some(c) => seq![MixSource::Carry(c)] + track_run(pos, n),
        None => track_run(pos, n),
    }
}

proof fn lemma_labels_empty()
    ensures
        labels_text(Seq::<MixSource>::empty()) == Seq::<char>::empty(),
{
    reveal(labels_text);
}

proof fn lemma_labels_step(s: Seq<MixSource>)
    requires
        s.len() > 0,
    ensures
        labels_text(s) == labels_text(s.drop_last()) + source_label(s.last()),
{
    reveal(labels_text);
}

proof fn lemma_stages_empty(normalize: bool)
    ensures
        stages_text(Seq::<(Seq<MixSource>, Option<nat>)>::empty(), normalize) == Seq::<char>::empty(),
{
    reveal(stages_text);
}

proof fn lemma_stages_step(stages: Seq<(Seq<MixSource>, Option<nat>)>, normalize: bool)
    requires
        stages.len() > 0,
    ensures
        stages_text(stages, normalize) == stage_text(stages[0], normalize) + stages_text(stages.drop_first(), normalize),
{
    reveal(stages_text);
}

proof fn lemma_chain_unfold(sources: Seq<MixSource>, k: nat)
    ensures
        chain_stages(sources, k) == if sources.len() <= 32 {
            seq![(sources, None)]
        } else {
            seq![(sources.take(32), Some(k))] + chain_stages(
                seq![MixSource::Carry(k as usize)] + sources.skip(32),
                k + 1,
            )
        },
{
    reveal(chain_stages);
}

proof fn lemma_close_stage(carry: Option<usize>, pos: nat, end: nat, n: nat, k: nat, normalize: bool)
    requires
        pos <= end <= n,
        k < usize::MAX,
        end - pos == if carry is Some { 31int } else { 32int },
        pending(carry, pos, n).len() > 32,
    ensures
        stages_text(chain_stages(pending(carry, pos, n), k), normalize)
            == labels_text(pending(carry, pos, end)) + "amix="@ + decimal(32) + mix_suffix(normalize)
                + source_label(MixSource::Carry(k as usize)) + ";"@
                + stages_text(chain_stages(pending(Some(k as usize), end, n), k + 1), normalize),
{
    let p = pending(carry, pos, n);
    let rest = seq![MixSource::Carry(k as usize)] + p.skip(32);
    assert(p.take(32) =~= pending(carry, pos, end));
    assert(rest =~= pending(Some(k as usize), end, n));
    let stages = chain_stages(p, k);
    lemma_chain_unfold(p, k);
    lemma_stages_step(stages, normalize);
    assert(stages == seq![(p.take(32), Some(k))] + chain_stages(rest, k + 1));
    assert(stages[0] == (p.take(32), Some(k)));
    assert(stages.drop_first() =~= chain_stages(rest, k + 1));
    assert(p.take(32).len() == 32);
}

fn push_label(out: &mut String, s: MixSource)
    ensures
        final(out)@ == old(out)@ + source_label(s),
{
    match s {
        MixSource::Track(i) => {
            out.append("[aud");
            push_decimal(out, i as u64);
        },
        MixSource::Carry(k) => {
            out.append("[mix");
            push_decimal(out, k as u64);
        },
    }
    out.append("]");
    assert(out@ =~= old(out)@ + source_label(s));
}

/// Appends the labels of the optional carry-over stream and of tracks `pos .. end`.
fn push_pending_labels(out: &mut String, carry: Option<usize>, pos: usize, end: usize)
    requires
        pos <= end,
    ensures
        final(out)@ == old(out)@ + labels_text(pending(carry, pos as nat, end as nat)),
{
    let ghost start = out@;
    if let Some(c) = carry {
        push_label(out, MixSource::Carry(c));
        proof {
            let s = seq![MixSource::Carry(c)];
            assert(s.drop_last() =~= Seq::<MixSource>::empty());
            assert(pending(carry, pos as nat, pos as nat) =~= s);
            lemma_labels_empty();
            lemma_labels_step(s);
            assert(out@ =~= start + labels_text(s));
        }
    } else {
        assert(pending(carry, pos as nat, pos as nat) =~= Seq::<MixSource>::empty());
        proof {
            lemma_labels_empty();
        }
        assert(out@ =~= start + labels_text(pending(carry, pos as nat, pos as nat)));
    }
    let mut t: usize = pos;
    while t < end
        invariant
            pos <= t <= end,
            out@ == start + labels_text(pending(carry, pos as nat, t as nat)),
        decreases end - t,
    {
        push_label(out, MixSource::Track(t));
        proof {
            let next = pending(carry, pos as nat, (t + 1) as nat);
            assert(next.drop_last() =~= pending(carry, pos as nat, t as nat));
            assert(next.last() == MixSource::Track(t));
            lemma_labels_step(next);
        }
        t = t + 1;
    }
}

fn push_mix_tail(out: &mut String, inputs: usize, normalize: bool)
    ensures
        final(out)@ == old(out)@ + "amix="@ + decimal(inputs as nat) + mix_suffix(normalize),
{
    out.append("amix=");
    push_decimal(out, inputs as u64);
    if normalize {
        out.append(",dynaudnorm");
    }
    assert(out@ =~= old(out)@ + "amix="@ + decimal(inputs as nat) + mix_suffix(normalize));
}

/// The filter graph that mixes `track_count` inputs (normalized first when `normalize`)
/// into the stream `[aud]`, in stages of at most 32 streams.
pub fn mix_filter_graph(track_count: usize, normalize: bool) -> (r: String)
    ensures
        r@ == filter_graph(track_count as nat, normalize),
{
    let n = track_count;
    let mut out = String::new();
    let mut i: usize = 0;
    while i < n
        invariant
            i <= n,
            out@ == track_filters_text(i as nat, normalize),
        decreases n - i,
    {
        let ghost before = out@;
        out.append("[");
        push_decimal(&mut out, i as u64);
        out.append(":a]");
        if normalize {
            out.append("dynaudnorm");
        } else {
            out.append("anull");
        }
        push_label(&mut out, MixSource::Track(i));
        out.append(";");
        assert(out@ =~= before + track_filter_text(i as nat, normalize));
        i = i + 1;
    }
    let ghost graph_start = out@;
    let mut carry: Option<usize> = None;
    let mut pos: usize = 0;
    let mut k: usize = 0;
    let mut waiting: usize = n;
    assert(pending(carry, 0, n as nat) =~= track_run(0, n as nat));
    while waiting > MAX_MIX_INPUTS
        invariant
            pos <= n,
            waiting == pending(carry, pos as nat, n as nat).len(),
            k <= pos,
            carry is None ==> k == 0,
            carry is Some ==> carry->Some_0 + 1 == k,
            out@ + stages_text(chain_stages(pending(carry, pos as nat, n as nat), k as nat), normalize)
                == graph_start + stages_text(mix_stages(n as nat), normalize),
        decreases n - pos,
    {
        let lead: usize = if carry.is_some() { 1 } else { 0 };
        let end = pos + (MAX_MIX_INPUTS - lead);
        proof {
            lemma_close_stage(carry, pos as nat, end as nat, n as nat, k as nat, normalize);
        }
        let ghost before = out@;
        let ghost old_rest = stages_text(chain_stages(pending(carry, pos as nat, n as nat), k as nat), normalize);
        let ghost new_rest = stages_text(chain_stages(pending(Some(k), end as nat, n as nat), (k + 1) as nat), normalize);
        push_pending_labels(&mut out, carry, pos, end);
        push_mix_tail(&mut out, MAX_MIX_INPUTS, normalize);
        push_label(&mut out, MixSource::Carry(k));
        out.append(";");
        assert(out@ + new_rest =~= before + old_rest);
        carry = Some(k);
        pos = end;
        k = k + 1;
        waiting = 1 + (n - pos);
    }
    let ghost p = pending(carry, pos as nat, n as nat);
    let ghost before = out@;
    push_pending_labels(&mut out, carry, pos, n);
    push_mix_tail(&mut out, waiting, normalize);
    out.append("[aud]");
    proof {
        let stages = chain_stages(p, k as nat);
        lemma_chain_unfold(p, k as nat);
        assert(stages == seq![(p, None::<nat>)]);
        assert(stages.drop_first() =~= Seq::<(Seq<MixSource>, Option<nat>)>::empty());
        lemma_stages_step(stages, normalize);
        lemma_stages_empty(normalize);
        assert(out@ =~= before + stage_text(stages[0], normalize));
        assert(stages_text(stages, normalize) == stage_text(stages[0], normalize) + stages_text(stages.drop_first(), normalize));
        assert(out@ =~= before + stages_text(stages, normalize));
    }
    out
}

/// Shape of the stages built from `sources`: each takes between one and 32 streams
/// (at least one whenever there is a source), every stage but the last hands its
/// carry-over stream, numbered consecutively from `k`, to the start of the next one, and
/// the last stage yields the result.
pub proof fn lemma_chain_shape(sources: Seq<MixSource>, k: nat)
    ensures
        chain_stages(sources, k).len() >= 1,
        sources.len() >= 1 ==> chain_stages(sources, k)[0].0[0] == sources[0],
        chain_stages(sources, k).last().1 is None,
        forall|i: int|
            0 <= i < chain_stages(sources, k).len() ==> {
                &&& #[trigger] chain_stages(sources, k)[i].0.len() <= MAX_MIX_INPUTS
                &&& sources.len() >= 1 ==> chain_stages(sources, k)[i].0.len() >= 1
            },
        forall|i: int|
            0 <= i < chain_stages(sources, k).len() - 1 ==> #[trigger] chain_stages(sources, k)[i].1
                == Some((k + i) as nat),
        forall|i: int|
            1 <= i < chain_stages(sources, k).len() ==> #[trigger] chain_stages(sources, k)[i].0[0]
                == MixSource::Carry((k + i - 1) as usize),
    decreases sources.len(),
{
    lemma_chain_unfold(sources, k);
    if sources.len() > 32 {
        let rest = seq![MixSource::Carry(k as usize)] + sources.skip(32);
        lemma_chain_shape(rest, k + 1);
        let tail = chain_stages(rest, k + 1);
        let st = chain_stages(sources, k);
        assert(st == seq![(sources.take(32), Some(k))] + tail);
        assert(st[0] == (sources.take(32), Some(k)));
        assert forall|i: int| 0 <= i < st.len() implies #[trigger] st[i].0.len() <= MAX_MIX_INPUTS
            && (sources.len() >= 1 ==> st[i].0.len() >= 1) by {
            if i > 0 {
                assert(st[i] == tail[i - 1]);
            }
        }
        assert forall|i: int| 0 <= i < st.len() - 1 implies #[trigger] st[i].1 == Some((k + i) as nat) by {
            if i > 0 {
                assert(st[i] == tail[i - 1]);
                assert(tail[i - 1].1 == Some((k + 1 + (i - 1)) as nat));
            }
        }
        assert forall|i: int| 1 <= i < st.len() implies #[trigger] st[i].0[0] == MixSource::Carry(
            (k + i - 1) as usize,
        ) by {
            assert(st[i] == tail[i - 1]);
            if i > 1 {
                assert(tail[i - 1].0[0] == MixSource::Carry((k + 1 + (i - 1) - 1) as usize));
            } else {
                assert(rest[0] == MixSource::Carry(k as usize));
            }
        }
        assert(st[0].0 == sources.take(32));
        assert(st.last() == tail.last());
    }
}

/// Every mixing stage for `n` tracks takes at most 32 streams, and at least one when
/// there is a track; consecutive stages are chained through numbered carry-over streams.
pub proof fn lemma_mix_stages_within_limit(n: nat)
    ensures
        mix_stages(n).len() >= 1,
        forall|i: int|
            0 <= i < mix_stages(n).len() ==> {
                &&& #[trigger] mix_stages(n)[i].0.len() <= MAX_MIX_INPUTS
                &&& n >= 1 ==> mix_stages(n)[i].0.len() >= 1
            },
        forall|i: int|
            0 <= i < mix_stages(n).len() - 1 ==> #[trigger] mix_stages(n)[i].1 == Some(i as nat),
        forall|i: int|
            1 <= i < mix_stages(n).len() ==> #[trigger] mix_stages(n)[i].0[0] == MixSource::Carry(
                (i - 1) as usize,
            ),
        mix_stages(n).last().1 is None,
{
    lemma_chain_shape(track_run(0, n), 0);
}

/// A single `amix` stage mixes `n` tracks exactly when `n` is at most 32; 33 tracks take
/// two chained stages, the second mixing the first one's output with the last track.
pub proof fn lemma_mix_stage_count(n: nat)
    ensures
        (mix_stages(n).len() == 1) <==> n <= MAX_MIX_INPUTS,
        n == MAX_MIX_INPUTS + 1 ==> {
            &&& mix_stages(n).len() == 2
            &&& mix_stages(n)[0] == (track_run(0, 32), Some(0nat))
            &&& mix_stages(n)[1] == (seq![MixSource::Carry(0), MixSource::Track(32)], None::<nat>)
        },
{
    let src = track_run(0, n);
    lemma_chain_unfold(src, 0);
    if n > 32 {
        let rest = seq![MixSource::Carry(0)] + src.skip(32);
        lemma_chain_shape(rest, 1);
        lemma_chain_unfold(rest, 1);
        if n == 33 {
            assert(src.take(32) =~= track_run(0, 32));
            assert(rest =~= seq![MixSource::Carry(0), MixSource::Track(32)]);
        }
    }
}

} // verus!
