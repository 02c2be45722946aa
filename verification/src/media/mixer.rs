//! Audio mixer for conference bridges.
//!
//! Provides N-way audio mixing with CSRC list tracking per RFC 3550: samples of the active
//! sources are summed in a wide accumulator and the sum is saturated once to the 16-bit
//! range; each mix lists at most 15
//! contributing sources. Sources are kept in the order they joined; mixing and eviction walk
//! them in that order.
use vstd::prelude::*;

verus! {

/// The most contributing sources an RTP header can list.
pub const MAX_CSRC_SOURCES: usize = 15;

/// State for a single audio source.
struct SourceState {
    /// Source identifier.
    ssrc: u32,
    /// Current audio samples.
    samples: Vec<i16>,
    /// Whether source is currently active.
    active: bool,
    /// Number of consecutive silent frames.
    silent_frames: u32,
}

/// A source as plain values.
pub struct SourceView {
    pub ssrc: u32,
    pub samples: Seq<i16>,
    pub active: bool,
    pub silent_frames: u32,
}

impl View for SourceState {
    type V = SourceView;

    closed spec fn view(&self) -> SourceView {
        SourceView {
            ssrc: self.ssrc,
            samples: self.samples@,
            active: self.active,
            silent_frames: self.silent_frames,
        }
    }
}

/// The identifiers of the sources, in order.
pub open spec fn ssrcs_of(s: Seq<SourceView>) -> Seq<u32> {
    Seq::new(s.len(), |i: int| s[i].ssrc)
}

/// No identifier occurs twice.
pub open spec fn distinct_ssrcs(s: Seq<SourceView>) -> bool {
    forall|i: int, j: int| 0 <= i < j < s.len() ==> s[i].ssrc != s[j].ssrc
}

/// The position of the source `ssrc`, or -1 if there is none.
pub open spec fn find_ssrc(s: Seq<SourceView>, ssrc: u32) -> int
    decreases s.len(),
{
    if s.len() == 0 {
        -1
    } else if s.last().ssrc == ssrc {
        s.len() - 1
    } else {
        find_ssrc(s.drop_last(), ssrc)
    }
}

/// Whether source `i` is the one evicted to make room: the last, in join order, of the
/// inactive sources with the most silent frames.
pub open spec fn is_victim(s: Seq<SourceView>, i: int) -> bool {
    &&& 0 <= i < s.len()
    &&& !s[i].active
    &&& forall|j: int| 0 <= j < s.len() && !(#[trigger] s[j]).active ==> s[j].silent_frames <= s[i].silent_frames
    &&& forall|j: int| i < j < s.len() && !(#[trigger] s[j]).active ==> s[j].silent_frames < s[i].silent_frames
}

/// Whether some source is inactive.
pub open spec fn has_inactive(s: Seq<SourceView>) -> bool {
    exists|i: int| 0 <= i < s.len() && !(#[trigger] s[i]).active
}

/// The number of active sources.
pub open spec fn count_active(s: Seq<SourceView>) -> nat
    decreases s.len(),
{
    if s.len() == 0 {
        0
    } else {
        count_active(s.drop_last()) + if s.last().active { 1nat } else { 0 }
    }
}

/// A source freshly fed with `samples`.
pub open spec fn fresh_source(ssrc: u32, samples: Seq<i16>) -> SourceView {
    SourceView { ssrc, samples, active: true, silent_frames: 0 }
}

/// Whether a source is heard in a mix that leaves out `exclude`.
pub open spec fn contributes(v: SourceView, exclude: Option<u32>) -> bool {
    exclude != Some(v.ssrc) && v.active && v.samples.len() > 0
}

/// `x` saturated to the 16-bit range.
pub open spec fn clamp16(x: int) -> i16 {
    if x > 32767 {
        32767i16
    } else if x < -32768 {
        -32768i16
    } else {
        x as i16
    }
}

/// The sum of sample `i` over the sources heard in a mix that leaves out `exclude`; a
/// source with fewer than `i + 1` samples adds nothing.
pub open spec fn sum_at(s: Seq<SourceView>, i: int, exclude: Option<u32>) -> int
    decreases s.len(),
{
    if s.len() == 0 {
        0
    } else {
        sum_at(s.drop_last(), i, exclude) + if contributes(s.last(), exclude) && i < s.last().samples.len() {
            s.last().samples[i] as int
        } else {
            0
        }
    }
}

/// The mix of `n` samples: at each position the sum over the contributing sources, saturated
/// once to the 16-bit range.
pub open spec fn mix_of(s: Seq<SourceView>, n: nat, exclude: Option<u32>) -> Seq<i16> {
    Seq::new(n, |i: int| clamp16(sum_at(s, i, exclude)))
}

/// The contributing source list of a mix: the first 15 contributing sources, in order.
pub open spec fn csrcs_of(s: Seq<SourceView>, exclude: Option<u32>) -> Seq<u32>
    decreases s.len(),
{
    if s.len() == 0 {
        Seq::empty()
    } else {
        let prev = csrcs_of(s.drop_last(), exclude);
        if contributes(s.last(), exclude) && prev.len() < MAX_CSRC_SOURCES {
            prev.push(s.last().ssrc)
        } else {
            prev
        }
    }
}

proof fn lemma_find_ssrc(s: Seq<SourceView>, ssrc: u32)
    ensures
        -1 <= find_ssrc(s, ssrc) < s.len(),
        find_ssrc(s, ssrc) >= 0 ==> s[find_ssrc(s, ssrc)].ssrc == ssrc,
        find_ssrc(s, ssrc) == -1 ==> forall|k: int| 0 <= k < s.len() ==> (#[trigger] s[k]).ssrc != ssrc,
    decreases s.len(),
{
    if s.len() > 0 {
        lemma_find_ssrc(s.drop_last(), ssrc);
        if s.last().ssrc != ssrc {
            assert forall|k: int| 0 <= k < s.len() - 1 implies s[k] == s.drop_last()[k] by {}
        }
    }
}

/// Audio mixer for combining multiple audio streams.
///
/// Implements RFC 3550 mixing semantics:
/// - Sums audio samples from multiple sources
/// - Tracks contributing sources (CSRC list)
/// - Provides N-1 mixing (each participant hears others, not themselves)
pub struct AudioMixer {
    /// Sources and their latest audio, in the order they joined.
    sources: Vec<SourceState>,
    /// Maximum number of sources to mix.
    max_sources: usize,
    /// Output buffer.
    output_buffer: Vec<i16>,
}

impl AudioMixer {
    /// The sources, in the order they joined.
    pub closed spec fn spec_sources(&self) -> Seq<SourceView> {
        Seq::new(self.sources@.len(), |i: int| self.sources@[i]@)
    }

    /// The most sources the mixer admits before it evicts an inactive one.
    pub closed spec fn spec_max_sources(&self) -> nat {
        self.max_sources as nat
    }

    /// No source occurs twice, and the limit is at most what an RTP header can list.
    pub open spec fn wf(&self) -> bool {
        distinct_ssrcs(self.spec_sources()) && self.spec_max_sources() <= MAX_CSRC_SOURCES
    }

    /// Create a new mixer with default settings.
    pub fn new(_sample_rate: u32) -> (m: Self)
        ensures
            m.wf(),
            m.spec_sources() == Seq::<SourceView>::empty(),
            m.spec_max_sources() == MAX_CSRC_SOURCES,
    {
        let m = AudioMixer { sources: Vec::new(), max_sources: MAX_CSRC_SOURCES, output_buffer: Vec::new() };
        assert(m.spec_sources() =~= Seq::<SourceView>::empty());
        m
    }

    /// Set the maximum number of sources to mix (at most 15).
    pub fn set_max_sources(&mut self, max: usize)
        requires
            old(self).wf(),
        ensures
            final(self).wf(),
            final(self).spec_sources() == old(self).spec_sources(),
            final(self).spec_max_sources() == if max < MAX_CSRC_SOURCES { max as nat } else { MAX_CSRC_SOURCES as nat },
    {
        self.max_sources = if max < MAX_CSRC_SOURCES { max } else { MAX_CSRC_SOURCES };
    }

    /// The position of `ssrc` among the sources.
    fn find(&self, ssrc: u32) -> (r: Option<usize>)
        ensures
            r matches Some(i) ==> i == find_ssrc(self.spec_sources(), ssrc),
            r is None ==> find_ssrc(self.spec_sources(), ssrc) == -1,
    {
        let ghost s = self.spec_sources();
        let mut i = self.sources.len();
        assert(s.take(s.len() as int) =~= s);
        while i > 0
            invariant
                i <= self.sources@.len(),
                s == self.spec_sources(),
                find_ssrc(s, ssrc) == find_ssrc(s.take(i as int), ssrc),
            decreases i,
        {
            let ghost t = s.take(i as int);
            assert(t.drop_last() =~= s.take(i - 1));
            assert(t.last() == s[i - 1]);
            if self.sources[i - 1].ssrc == ssrc {
                return Some(i - 1);
            }
            i -= 1;
        }
        None
    }

    /// The source to evict: the last inactive one with the most silent frames.
    fn victim(&self) -> (r: Option<usize>)
        ensures
            r matches Some(i) ==> is_victim(self.spec_sources(), i as int),
            r is None ==> !has_inactive(self.spec_sources()),
    {
        let ghost s = self.spec_sources();
        let mut best: Option<usize> = None;
        let mut i: usize = 0;
        while i < self.sources.len()
            invariant
                i <= self.sources@.len(),
                s == self.spec_sources(),
                best matches Some(b) ==> is_victim(s.take(i as int), b as int) && b < i,
                best is None ==> forall|j: int| 0 <= j < i ==> (#[trigger] s[j]).active,
            decreases self.sources.len() - i,
        {
            let ghost t = s.take(i + 1);
            assert(forall|j: int| 0 <= j < i ==> t[j] == s.take(i as int)[j]);
            if !self.sources[i].active {
                let take = match best {
                    None => true,
                    Some(b) => self.sources[i].silent_frames >= self.sources[b].silent_frames,
                };
                if take {
                    best = Some(i);
                }
            }
            i += 1;
        }
        assert(s.take(s.len() as int) =~= s);
        best
    }

    /// Add or update audio from a source.
    ///
    /// A source already present gets the new samples and becomes active. A new source is
    /// admitted when there is room; when the mixer is full, the last inactive source with the
    /// most silent frames makes room for it, and if every source is active the new one is
    /// turned away.
    pub fn add_source(&mut self, ssrc: u32, samples: &[i16])
        requires
            old(self).wf(),
        ensures
            final(self).wf(),
            final(self).spec_max_sources() == old(self).spec_max_sources(),
            ({
                let s = old(self).spec_sources();
                let t = final(self).spec_sources();
                let f = fresh_source(ssrc, samples@);
                if find_ssrc(s, ssrc) >= 0 {
                    t == s.update(find_ssrc(s, ssrc), f)
                } else if s.len() < old(self).spec_max_sources() {
                    t == s.push(f)
                } else if has_inactive(s) {
                    exists|i: int| is_victim(s, i) && t == s.remove(i).push(f)
                } else {
                    t == s
                }
            }),
    {
        let ghost s = self.spec_sources();
        proof {
            lemma_find_ssrc(s, ssrc);
        }
        let f = SourceState { ssrc, samples: vstd::slice::slice_to_vec(samples), active: true, silent_frames: 0 };
        match self.find(ssrc) {
            Some(i) => {
                self.sources.set(i, f);
                assert(self.spec_sources() =~= s.update(i as int, fresh_source(ssrc, samples@)));
            },
            None => {
                if self.sources.len() >= self.max_sources {
                    match self.victim() {
                        Some(v) => {
                            self.sources.remove(v);
                            assert(self.spec_sources() =~= s.remove(v as int));
                        },
                        None => {
                            return;
                        },
                    }
                }
                let ghost before = self.spec_sources();
                self.sources.push(f);
                assert(self.spec_sources() =~= before.push(fresh_source(ssrc, samples@)));
            },
        }
    }

    /// Mark a source as having no current audio.
    pub fn mark_silent(&mut self, ssrc: u32)
        requires
            old(self).wf(),
            forall|k: int|
                0 <= k < old(self).spec_sources().len() && (#[trigger] old(self).spec_sources()[k]).ssrc == ssrc
                    ==> old(self).spec_sources()[k].silent_frames < u32::MAX,
        ensures
            final(self).wf(),
            final(self).spec_max_sources() == old(self).spec_max_sources(),
            ({
                let s = old(self).spec_sources();
                let i = find_ssrc(s, ssrc);
                if i >= 0 {
                    final(self).spec_sources() == s.update(
                        i,
                        SourceView { active: false, silent_frames: (s[i].silent_frames + 1) as u32, ..s[i] },
                    )
                } else {
                    final(self).spec_sources() == s
                }
            }),
    {
        let ghost s = self.spec_sources();
        proof {
            lemma_find_ssrc(s, ssrc);
        }
        match self.find(ssrc) {
            Some(i) => {
                self.sources[i].active = false;
                self.sources[i].silent_frames = self.sources[i].silent_frames + 1;
                assert(self.spec_sources() =~= s.update(
                    i as int,
                    SourceView { active: false, silent_frames: (s[i as int].silent_frames + 1) as u32, ..s[i as int] },
                ));
            },
            None => {},
        }
    }

    /// Remove a source from the mixer.
    pub fn remove_source(&mut self, ssrc: u32)
        requires
            old(self).wf(),
        ensures
            final(self).wf(),
            final(self).spec_max_sources() == old(self).spec_max_sources(),
            !ssrcs_of(final(self).spec_sources()).contains(ssrc),
            ({
                let s = old(self).spec_sources();
                if find_ssrc(s, ssrc) >= 0 {
                    final(self).spec_sources() == s.remove(find_ssrc(s, ssrc))
                } else {
                    final(self).spec_sources() == s
                }
            }),
    {
        let ghost s = self.spec_sources();
        proof {
            lemma_find_ssrc(s, ssrc);
        }
        match self.find(ssrc) {
            Some(i) => {
                self.sources.remove(i);
                assert(self.spec_sources() =~= s.remove(i as int));
            },
            None => {},
        }
        proof {
            let t = self.spec_sources();
            if ssrcs_of(t).contains(ssrc) {
                let k = choose|k: int| 0 <= k < ssrcs_of(t).len() && ssrcs_of(t)[k] == ssrc;
                assert(t[k].ssrc == ssrc);
            }
        }
    }

    /// Mix all sources and return combined audio.
    ///
    /// Returns the mixed samples and the contributing SSRC list.
    pub fn mix(&mut self, num_samples: usize) -> (r: (Vec<i16>, Vec<u32>))
        requires
            old(self).wf(),
        ensures
            final(self).wf(),
            final(self).spec_sources() == old(self).spec_sources(),
            final(self).spec_max_sources() == old(self).spec_max_sources(),
            r.0@ == mix_of(old(self).spec_sources(), num_samples as nat, None),
            r.1@ == csrcs_of(old(self).spec_sources(), None),
    {
        self.mix_except(num_samples, None)
    }

    /// Mix all sources except one (N-1 mixing for conferences).
    ///
    /// Returns the mixed samples and the contributing SSRC list; the excluded source is in
    /// neither.
    pub fn mix_except(&mut self, num_samples: usize, exclude_ssrc: Option<u32>) -> (r: (Vec<i16>, Vec<u32>))
        requires
            old(self).wf(),
        ensures
            final(self).wf(),
            final(self).spec_sources() == old(self).spec_sources(),
            final(self).spec_max_sources() == old(self).spec_max_sources(),
            r.0@ == mix_of(old(self).spec_sources(), num_samples as nat, exclude_ssrc),
            r.1@ == csrcs_of(old(self).spec_sources(), exclude_ssrc),
    {
        let ghost s = self.spec_sources();
        let n = num_samples;
        let mut acc: Vec<i128> = Vec::new();
        let mut k: usize = 0;
        assert(s.take(0) =~= Seq::<SourceView>::empty());
        while k < n
            invariant
                k <= n,
                acc@.len() == k,
                forall|q: int| 0 <= q < k ==> acc@[q] == 0,
            decreases n - k,
        {
            acc.push(0);
            k += 1;
        }
        let mut csrc_list: Vec<u32> = Vec::new();
        let mut j: usize = 0;
        while j < self.sources.len()
            invariant
                j <= self.sources@.len(),
                s == self.spec_sources(),
                acc@.len() == n,
                forall|q: int| 0 <= q < n ==> acc@[q] == sum_at(#[trigger] s.take(j as int), q, exclude_ssrc),
                forall|q: int| 0 <= q < n ==> -(j * 32768) <= #[trigger] acc@[q] <= j * 32767,
                csrc_list@ == csrcs_of(s.take(j as int), exclude_ssrc),
            decreases self.sources.len() - j,
        {
            let ghost t = s.take(j + 1);
            assert(t.drop_last() =~= s.take(j as int));
            assert(t.last() == s[j as int]);
            let source = &self.sources[j];
            let skip = match exclude_ssrc {
                Some(x) => x == source.ssrc,
                None => false,
            };
            let ghost prev = acc@;
            if !skip && source.active && source.samples.len() > 0 {
                if csrc_list.len() < MAX_CSRC_SOURCES {
                    csrc_list.push(source.ssrc);
                }
                let mix_len = if n < source.samples.len() { n } else { source.samples.len() };
                let mut i: usize = 0;
                while i < mix_len
                    invariant
                        i <= mix_len,
                        mix_len <= n,
                        mix_len <= source.samples@.len(),
                        prev.len() == n,
                        acc@.len() == n,
                        j < usize::MAX,
                        forall|q: int| 0 <= q < n ==> -(j * 32768) <= #[trigger] prev[q] <= j * 32767,
                        forall|q: int|
                            0 <= q < n ==> #[trigger] acc@[q] == prev[q] + if q < i {
                                source.samples@[q] as int
                            } else {
                                0
                            },
                    decreases mix_len - i,
                {
                    let v: i128 = acc[i] + source.samples[i] as i128;
                    acc.set(i, v);
                    i += 1;
                }
                assert forall|q: int| 0 <= q < n implies acc@[q] == sum_at(#[trigger] s.take(j + 1), q, exclude_ssrc) by {
                    assert(sum_at(t, q, exclude_ssrc) == sum_at(t.drop_last(), q, exclude_ssrc) + if q < source.samples@.len() {
                        source.samples@[q] as int
                    } else {
                        0
                    });
                }
            } else {
                assert forall|q: int| 0 <= q < n implies acc@[q] == sum_at(#[trigger] s.take(j + 1), q, exclude_ssrc) by {
                    assert(sum_at(t, q, exclude_ssrc) == sum_at(t.drop_last(), q, exclude_ssrc));
                }
            }
            j += 1;
        }
        assert(s.take(s.len() as int) =~= s);
        let mut out: Vec<i16> = Vec::new();
        let mut q: usize = 0;
        while q < n
            invariant
                q <= n,
                acc@.len() == n,
                forall|x: int| 0 <= x < n ==> acc@[x] == sum_at(s, x, exclude_ssrc),
                out@ == Seq::new(q as nat, |x: int| clamp16(sum_at(s, x, exclude_ssrc))),
            decreases n - q,
        {
            let a = acc[q];
            let c: i16 = if a > 32767 {
                32767
            } else if a < -32768 {
                -32768
            } else {
                a as i16
            };
            out.push(c);
            assert(out@ =~= Seq::new((q + 1) as nat, |x: int| clamp16(sum_at(s, x, exclude_ssrc))));
            q += 1;
        }
        self.output_buffer = out.clone();
        (out, csrc_list)
    }

    /// Get the number of active sources.
    pub fn active_source_count(&self) -> (n: usize)
        ensures
            n == count_active(self.spec_sources()),
    {
        let ghost s = self.spec_sources();
        let mut n: usize = 0;
        let mut i: usize = 0;
        assert(s.take(0) =~= Seq::<SourceView>::empty());
        while i < self.sources.len()
            invariant
                i <= self.sources@.len(),
                s == self.spec_sources(),
                n == count_active(s.take(i as int)),
                n <= i,
            decreases self.sources.len() - i,
        {
            let ghost t = s.take(i + 1);
            assert(t.drop_last() =~= s.take(i as int));
            if self.sources[i].active {
                n += 1;
            }
            i += 1;
        }
        assert(s.take(s.len() as int) =~= s);
        n
    }

    /// Get the list of all source SSRCs.
    pub fn source_ssrcs(&self) -> (v: Vec<u32>)
        ensures
            v@ == ssrcs_of(self.spec_sources()),
    {
        let ghost s = self.spec_sources();
        let mut v: Vec<u32> = Vec::new();
        let mut i: usize = 0;
        while i < self.sources.len()
            invariant
                i <= self.sources@.len(),
                s == self.spec_sources(),
                v@ == ssrcs_of(s.take(i as int)),
            decreases self.sources.len() - i,
        {
            v.push(self.sources[i].ssrc);
            assert(v@ =~= ssrcs_of(s.take(i + 1)));
            i += 1;
        }
        assert(s.take(s.len() as int) =~= s);
        v
    }

    /// Clear all sources.
    pub fn clear(&mut self)
        requires
            old(self).wf(),
        ensures
            final(self).wf(),
            final(self).spec_sources() == Seq::<SourceView>::empty(),
            final(self).spec_max_sources() == old(self).spec_max_sources(),
    {
        self.sources.clear();
        assert(self.spec_sources() =~= Seq::<SourceView>::empty());
    }
}

/// The contributing source list never holds more than 15 sources.
pub proof fn lemma_csrcs_bounded(s: Seq<SourceView>, exclude: Option<u32>)
    ensures
        csrcs_of(s, exclude).len() <= MAX_CSRC_SOURCES,
    decreases s.len(),
{
    if s.len() > 0 {
        lemma_csrcs_bounded(s.drop_last(), exclude);
    }
}

/// A participant never hears itself: the excluded source is not among the contributors.
pub proof fn lemma_csrcs_exclude(s: Seq<SourceView>, x: u32)
    ensures
        !csrcs_of(s, Some(x)).contains(x),
    decreases s.len(),
{
    if s.len() > 0 {
        lemma_csrcs_exclude(s.drop_last(), x);
        let prev = csrcs_of(s.drop_last(), Some(x));
        if contributes(s.last(), Some(x)) && prev.len() < MAX_CSRC_SOURCES {
            assert forall|k: int| 0 <= k < prev.len() + 1 implies prev.push(s.last().ssrc)[k] != x by {
                if k < prev.len() {
                    assert(prev.push(s.last().ssrc)[k] == prev[k]);
                }
            }
        }
    }
}

/// The contributors of a mix are sources of the mixer, each active.
pub proof fn lemma_csrcs_are_active_sources(s: Seq<SourceView>, exclude: Option<u32>, c: u32)
    requires
        csrcs_of(s, exclude).contains(c),
    ensures
        exists|i: int| 0 <= i < s.len() && (#[trigger] s[i]).ssrc == c && s[i].active,
    decreases s.len(),
{
    if s.len() > 0 {
        let prev = csrcs_of(s.drop_last(), exclude);
        if prev.contains(c) {
            lemma_csrcs_are_active_sources(s.drop_last(), exclude, c);
            let i = choose|i: int| 0 <= i < s.drop_last().len() && (#[trigger] s.drop_last()[i]).ssrc == c && s.drop_last()[i].active;
            assert(s[i] == s.drop_last()[i]);
        } else {
            assert(s[s.len() - 1].ssrc == c);
        }
    }
}

/// A mixer that is within its limit stays within it after a source is added.
pub proof fn lemma_add_source_keeps_limit(
    s: Seq<SourceView>,
    t: Seq<SourceView>,
    max: nat,
    ssrc: u32,
    samples: Seq<i16>,
)
    requires
        s.len() <= max,
        ({
            let f = fresh_source(ssrc, samples);
            if find_ssrc(s, ssrc) >= 0 {
                t == s.update(find_ssrc(s, ssrc), f)
            } else if s.len() < max {
                t == s.push(f)
            } else if has_inactive(s) {
                exists|i: int| is_victim(s, i) && t == s.remove(i).push(f)
            } else {
                t == s
            }
        }),
    ensures
        t.len() <= max,
{
    lemma_find_ssrc(s, ssrc);
}

/// Conference mixer that manages multiple participants.
///
/// Provides higher-level mixing with per-participant output.
pub struct ConferenceMixer {
    /// Underlying audio mixer.
    mixer: AudioMixer,
    /// Number of samples per frame.
    frame_size: usize,
}

impl ConferenceMixer {
    /// The participants, in the order they joined.
    pub closed spec fn spec_sources(&self) -> Seq<SourceView> {
        self.mixer.spec_sources()
    }

    /// Samples per frame.
    pub closed spec fn spec_frame_size(&self) -> nat {
        self.frame_size as nat
    }

    /// The underlying mixer is well formed.
    pub closed spec fn wf(&self) -> bool {
        self.mixer.wf() && self.mixer.spec_max_sources() == MAX_CSRC_SOURCES
    }

    /// Create a new conference mixer with frames of `frame_duration_ms` at `sample_rate`.
    pub fn new(sample_rate: u32, frame_duration_ms: u32) -> (c: Self)
        requires
            sample_rate * frame_duration_ms <= u32::MAX,
        ensures
            c.wf(),
            c.spec_sources() == Seq::<SourceView>::empty(),
            c.spec_frame_size() == sample_rate * frame_duration_ms / 1000,
    {
        let frame_size = (sample_rate * frame_duration_ms / 1000) as usize;
        ConferenceMixer { mixer: AudioMixer::new(sample_rate), frame_size }
    }

    /// Submit audio from a participant.
    pub fn submit_audio(&mut self, ssrc: u32, samples: &[i16])
        requires
            old(self).wf(),
        ensures
            final(self).wf(),
            final(self).spec_frame_size() == old(self).spec_frame_size(),
            ({
                let s = old(self).spec_sources();
                let t = final(self).spec_sources();
                let f = fresh_source(ssrc, samples@);
                if find_ssrc(s, ssrc) >= 0 {
                    t == s.update(find_ssrc(s, ssrc), f)
                } else if s.len() < MAX_CSRC_SOURCES {
                    t == s.push(f)
                } else if has_inactive(s) {
                    exists|i: int| is_victim(s, i) && t == s.remove(i).push(f)
                } else {
                    t == s
                }
            }),
    {
        self.mixer.add_source(ssrc, samples);
    }

    /// Mark a participant as silent for this frame.
    pub fn mark_silent(&mut self, ssrc: u32)
        requires
            old(self).wf(),
            forall|k: int|
                0 <= k < old(self).spec_sources().len() && (#[trigger] old(self).spec_sources()[k]).ssrc == ssrc
                    ==> old(self).spec_sources()[k].silent_frames < u32::MAX,
        ensures
            final(self).wf(),
            final(self).spec_frame_size() == old(self).spec_frame_size(),
            ({
                let s = old(self).spec_sources();
                let i = find_ssrc(s, ssrc);
                if i >= 0 {
                    final(self).spec_sources() == s.update(
                        i,
                        SourceView { active: false, silent_frames: (s[i].silent_frames + 1) as u32, ..s[i] },
                    )
                } else {
                    final(self).spec_sources() == s
                }
            }),
    {
        self.mixer.mark_silent(ssrc);
    }

    /// Remove a participant from the conference.
    pub fn remove_participant(&mut self, ssrc: u32)
        requires
            old(self).wf(),
        ensures
            final(self).wf(),
            final(self).spec_frame_size() == old(self).spec_frame_size(),
            ({
                let s = old(self).spec_sources();
                if find_ssrc(s, ssrc) >= 0 {
                    final(self).spec_sources() == s.remove(find_ssrc(s, ssrc))
                } else {
                    final(self).spec_sources() == s
                }
            }),
    {
        self.mixer.remove_source(ssrc);
    }

    /// Get the mixed audio for a specific participant: one frame of the mix of all other
    /// participants (N-1 mixing), with its contributing SSRC list.
    pub fn get_mix_for(&mut self, ssrc: u32) -> (r: (Vec<i16>, Vec<u32>))
        requires
            old(self).wf(),
        ensures
            final(self).wf(),
            final(self).spec_sources() == old(self).spec_sources(),
            final(self).spec_frame_size() == old(self).spec_frame_size(),
            r.0@ == mix_of(old(self).spec_sources(), old(self).spec_frame_size(), Some(ssrc)),
            r.1@ == csrcs_of(old(self).spec_sources(), Some(ssrc)),
    {
        self.mixer.mix_except(self.frame_size, Some(ssrc))
    }

    /// Get the number of active participants.
    pub fn participant_count(&self) -> (n: usize)
        ensures
            n == count_active(self.spec_sources()),
    {
        self.mixer.active_source_count()
    }
}

} // verus!

verus! {

/// The sum at a position over two lists of sources is the sum over each.
proof fn lemma_sum_at_concat(a: Seq<SourceView>, b: Seq<SourceView>, i: int, exclude: Option<u32>)
    ensures
        sum_at(a + b, i, exclude) == sum_at(a, i, exclude) + sum_at(b, i, exclude),
    decreases b.len(),
{
    if b.len() == 0 {
        assert(a + b =~= a);
    } else {
        lemma_sum_at_concat(a, b.drop_last(), i, exclude);
        assert((a + b).drop_last() =~= a + b.drop_last());
        assert((a + b).last() == b.last());
    }
}

/// The sum at a position over a single source.
proof fn lemma_sum_at_one(v: SourceView, i: int, exclude: Option<u32>)
    ensures
        sum_at(seq![v], i, exclude) == if contributes(v, exclude) && i < v.samples.len() {
            v.samples[i] as int
        } else {
            0
        },
{
    assert(seq![v].drop_last() =~= Seq::<SourceView>::empty());
    assert(seq![v].last() == v);
    assert(sum_at(Seq::<SourceView>::empty(), i, exclude) == 0);
}

/// A mix does not depend on the order in which the sources joined: exchanging two neighbouring
/// sources leaves every mixed sample as it was.
pub proof fn lemma_mix_ignores_join_order(
    before: Seq<SourceView>,
    x: SourceView,
    y: SourceView,
    after: Seq<SourceView>,
    n: nat,
    exclude: Option<u32>,
)
    ensures
        mix_of(before + seq![x, y] + after, n, exclude) == mix_of(before + seq![y, x] + after, n, exclude),
{
    assert forall|i: int| 0 <= i < n implies sum_at(before + seq![x, y] + after, i, exclude) == sum_at(
        before + seq![y, x] + after,
        i,
        exclude,
    ) by {
        lemma_sum_at_concat(before + seq![x, y], after, i, exclude);
        lemma_sum_at_concat(before + seq![y, x], after, i, exclude);
        lemma_sum_at_concat(before, seq![x, y], i, exclude);
        lemma_sum_at_concat(before, seq![y, x], i, exclude);
        lemma_sum_at_concat(seq![x], seq![y], i, exclude);
        lemma_sum_at_concat(seq![y], seq![x], i, exclude);
        assert(seq![x] + seq![y] =~= seq![x, y]);
        assert(seq![y] + seq![x] =~= seq![y, x]);
        lemma_sum_at_one(x, i, exclude);
        lemma_sum_at_one(y, i, exclude);
    }
    assert(mix_of(before + seq![x, y] + after, n, exclude) =~= mix_of(before + seq![y, x] + after, n, exclude));
}

/// Two sources heard together: each mixed sample is their sum, saturated to
/// `-32768..=32767`; past the end of a source's samples it adds nothing.
pub proof fn lemma_mix_of_two(x: SourceView, y: SourceView, n: nat, i: int)
    requires
        contributes(x, None),
        contributes(y, None),
        0 <= i < n,
    ensures
        ({
            let a: int = if i < x.samples.len() { x.samples[i] as int } else { 0 };
            let b: int = if i < y.samples.len() { y.samples[i] as int } else { 0 };
            let m = mix_of(seq![x, y], n, None)[i] as int;
            &&& -32768 <= a + b <= 32767 ==> m == a + b
            &&& a + b > 32767 ==> m == 32767
            &&& a + b < -32768 ==> m == -32768
        }),
{
    lemma_sum_at_concat(seq![x], seq![y], i, None);
    assert(seq![x] + seq![y] =~= seq![x, y]);
    lemma_sum_at_one(x, i, None);
    lemma_sum_at_one(y, i, None);
}

} // verus!
