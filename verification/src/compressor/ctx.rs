//! The context that is passed through recursive compression.
use std::sync::Arc;
use vstd::prelude::*;

use crate::text;
use crate::text::{push_decimal, same_text};

verus! {

/// How many schemes may be applied on top of each other.
pub const MAX_CASCADE: usize = 3;

/// The name of a compression scheme, by which it is told apart from others.
#[derive(Clone, Copy, Debug)]
pub struct SchemeId {
    pub name: &'static str,
}

impl View for SchemeId {
    type V = Seq<char>;

    open spec fn view(&self) -> Seq<char> {
        self.name@
    }
}

impl SchemeId {
    /// Whether two ids name the same scheme.
    pub fn is(&self, other: &SchemeId) -> (b: bool)
        ensures
            b == (self@ == other@),
    {
        same_text(self.name, other.name)
    }
}

/// The id that stands for the compressor itself at the root of a cascade.
pub open spec fn root_scheme_name() -> Seq<char> {
    "vortex.compressor.root"@
}

/// The id that stands for the compressor itself at the root of a cascade.
pub fn root_scheme_id() -> (id: SchemeId)
    ensures
        id@ == root_scheme_name(),
{
    SchemeId { name: "vortex.compressor.root" }
}

/// Which statistics are generated for the schemes that are tried.
#[derive(Clone, Copy, Debug, PartialEq, Eq, Structural)]
pub struct GenerateStatsOptions {
    pub count_distinct_values: bool,
}

impl Default for GenerateStatsOptions {
    fn default() -> (o: GenerateStatsOptions)
        ensures
            o == (GenerateStatsOptions { count_distinct_values: false }),
    {
        GenerateStatsOptions { count_distinct_values: false }
    }
}

/// What a context holds.
#[verifier::ext_equal]
pub struct ContextModel<O> {
    /// Whether a sample is compressed, to estimate a ratio.
    pub is_sample: bool,
    /// How many more schemes may be applied.
    pub allowed_cascading: nat,
    /// The statistics that the eligible schemes need.
    pub merged_stats_options: GenerateStatsOptions,
    /// The schemes applied so far, each with the child that is compressed.
    pub cascade_history: Seq<(SchemeId, usize)>,
    /// The scheme that is known to win here.
    pub frozen_scheme: Option<SchemeId>,
    /// Who is told which scheme wins here.
    pub winner_observer: Option<Arc<O>>,
}

/// The context of a compression: the schemes applied so far and how many may follow, and the
/// caller's hints for this level.
pub struct CompressorContext<O> {
    is_sample: bool,
    allowed_cascading: usize,
    merged_stats_options: GenerateStatsOptions,
    cascade_history: Vec<(SchemeId, usize)>,
    frozen_scheme: Option<SchemeId>,
    winner_observer: Option<Arc<O>>,
}

impl<O> View for CompressorContext<O> {
    type V = ContextModel<O>;

    closed spec fn view(&self) -> ContextModel<O> {
        ContextModel {
            is_sample: self.is_sample,
            allowed_cascading: self.allowed_cascading as nat,
            merged_stats_options: self.merged_stats_options,
            cascade_history: self.cascade_history@,
            frozen_scheme: self.frozen_scheme,
            winner_observer: self.winner_observer,
        }
    }
}

/// The context in which a compression starts.
pub open spec fn fresh_context<O>() -> ContextModel<O> {
    ContextModel {
        is_sample: false,
        allowed_cascading: MAX_CASCADE as nat,
        merged_stats_options: GenerateStatsOptions { count_distinct_values: false },
        cascade_history: Seq::empty(),
        frozen_scheme: None,
        winner_observer: None,
    }
}

/// The context of child `child_index` under the scheme `id`. One level fewer is left, and the
/// hints, which apply to one level only, are gone.
pub open spec fn descended<O>(ctx: ContextModel<O>, id: SchemeId, child_index: usize) -> ContextModel<
    O,
> {
    ContextModel {
        allowed_cascading: (ctx.allowed_cascading - 1) as nat,
        cascade_history: ctx.cascade_history.push((id, child_index)),
        frozen_scheme: None,
        winner_observer: None,
        ..ctx
    }
}

/// One step of a cascade in words.
pub open spec fn step_text(step: (SchemeId, usize)) -> Seq<char> {
    (if step.0@ == root_scheme_name() {
        "root"@
    } else {
        step.0@
    }) + "["@ + text::decimal_text(step.1 as nat) + "]"@
}

/// The steps of a cascade in words.
pub open spec fn steps_text(history: Seq<(SchemeId, usize)>) -> Seq<char>
    decreases history.len(),
{
    if history.len() == 0 {
        Seq::empty()
    } else if history.len() == 1 {
        step_text(history[0])
    } else {
        steps_text(history.drop_last()) + " > "@ + step_text(history.last())
    }
}

/// A cascade in words: its steps, or `root` where there is none.
pub open spec fn path_text(history: Seq<(SchemeId, usize)>) -> Seq<char> {
    if history.len() == 0 {
        "root"@
    } else {
        steps_text(history)
    }
}

impl<O> Default for CompressorContext<O> {
    fn default() -> (ctx: CompressorContext<O>)
        ensures
            ctx@ == fresh_context::<O>(),
    {
        CompressorContext::new()
    }
}

impl<O> CompressorContext<O> {
    /// The context in which a compression starts.
    pub fn new() -> (ctx: CompressorContext<O>)
        ensures
            ctx@ == fresh_context::<O>(),
    {
        let ctx = CompressorContext {
            is_sample: false,
            allowed_cascading: MAX_CASCADE,
            merged_stats_options: GenerateStatsOptions { count_distinct_values: false },
            cascade_history: Vec::new(),
            frozen_scheme: None,
            winner_observer: None,
        };
        assert(ctx@ =~= fresh_context::<O>());
        ctx
    }

    /// The same context in a value of its own.
    pub fn duplicate(&self) -> (ctx: CompressorContext<O>)
        ensures
            ctx@ == self@,
    {
        let mut cascade_history: Vec<(SchemeId, usize)> = Vec::new();
        let mut i: usize = 0;
        while i < self.cascade_history.len()
            invariant
                i <= self.cascade_history@.len(),
                cascade_history@ == self.cascade_history@.take(i as int),
            decreases self.cascade_history@.len() - i,
        {
            cascade_history.push(self.cascade_history[i]);
            i = i + 1;
            assert(cascade_history@ =~= self.cascade_history@.take(i as int));
        }
        assert(cascade_history@ =~= self.cascade_history@);
        let winner_observer = match &self.winner_observer {
            Some(o) => Some(Arc::clone(o)),
            None => None,
        };
        CompressorContext {
            is_sample: self.is_sample,
            allowed_cascading: self.allowed_cascading,
            merged_stats_options: self.merged_stats_options,
            cascade_history,
            frozen_scheme: self.frozen_scheme,
            winner_observer,
        }
    }

    /// Whether a sample is compressed, to estimate a ratio.
    pub fn is_sample(&self) -> (b: bool)
        ensures
            b == self@.is_sample,
    {
        self.is_sample
    }

    /// How many more schemes may be applied.
    pub fn allowed_cascading(&self) -> (n: usize)
        ensures
            n == self@.allowed_cascading,
    {
        self.allowed_cascading
    }

    /// The statistics that the eligible schemes need.
    pub fn merged_stats_options(&self) -> (o: GenerateStatsOptions)
        ensures
            o == self@.merged_stats_options,
    {
        self.merged_stats_options
    }

    /// The schemes applied so far, each with the child that is compressed.
    pub fn cascade_history(&self) -> (h: &[(SchemeId, usize)])
        ensures
            h@ == self@.cascade_history,
    {
        self.cascade_history.as_slice()
    }

    /// The schemes applied so far, in words.
    pub fn cascade_path(&self) -> (s: String)
        ensures
            s@ == path_text(self@.cascade_history),
    {
        let history = self.cascade_history.as_slice();
        if history.len() == 0 {
            return String::from_str("root");
        }
        let mut s: String = String::new();
        let root = root_scheme_id();
        let mut i: usize = 0;
        assert(history@.take(0) =~= Seq::empty());
        while i < history.len()
            invariant
                i <= history@.len(),
                root@ == root_scheme_name(),
                s@ == steps_text(history@.take(i as int)),
            decreases history@.len() - i,
        {
            let step = history[i];
            proof {
                assert(history@.take(i + 1).drop_last() =~= history@.take(i as int));
                assert(history@.take(i + 1).last() == step);
            }
            if i > 0 {
                s.append(" > ");
            }
            let ghost before = s@;
            if step.0.is(&root) {
                s.append("root");
            } else {
                s.append(step.0.name);
            }
            s.append("[");
            push_decimal(&mut s, step.1 as u128);
            s.append("]");
            assert(s@ =~= before + step_text(step));
            assert(s@ =~= steps_text(history@.take(i + 1)));
            i = i + 1;
        }
        assert(history@.take(history@.len() as int) =~= history@);
        s
    }

    /// How many schemes have been applied so far.
    pub fn cascade_depth(&self) -> (n: usize)
        ensures
            n == self@.cascade_history.len(),
    {
        self.cascade_history.len()
    }

    /// Whether no further scheme may be applied.
    pub fn finished_cascading(&self) -> (b: bool)
        ensures
            b == (self@.allowed_cascading == 0),
    {
        self.allowed_cascading == 0
    }

    /// The context without any further scheme allowed.
    pub fn as_leaf(self) -> (ctx: CompressorContext<O>)
        ensures
            ctx@ == (ContextModel { allowed_cascading: 0, ..self@ }),
    {
        let mut ctx = self;
        ctx.allowed_cascading = 0;
        ctx
    }

    /// The context with other statistics.
    pub fn with_merged_stats_options(self, opts: GenerateStatsOptions) -> (ctx: CompressorContext<O>)
        ensures
            ctx@ == (ContextModel { merged_stats_options: opts, ..self@ }),
    {
        let mut ctx = self;
        ctx.merged_stats_options = opts;
        ctx
    }

    /// The context for the compression of a sample.
    pub fn with_sampling(self) -> (ctx: CompressorContext<O>)
        ensures
            ctx@ == (ContextModel { is_sample: true, ..self@ }),
    {
        let mut ctx = self;
        ctx.is_sample = true;
        ctx
    }

    /// The context of child `child_index` under the scheme `id`.
    pub fn descend_with_scheme(self, id: SchemeId, child_index: usize) -> (ctx: CompressorContext<O>)
        requires
            self@.allowed_cascading > 0,
        ensures
            ctx@ == descended(self@, id, child_index),
    {
        let mut ctx = self;
        ctx.allowed_cascading = ctx.allowed_cascading - 1;
        ctx.cascade_history.push((id, child_index));
        ctx.frozen_scheme = None;
        ctx.winner_observer = None;
        ctx
    }

    /// The scheme that is known to win here, if any.
    pub fn frozen_scheme(&self) -> (id: Option<SchemeId>)
        ensures
            id == self@.frozen_scheme,
    {
        self.frozen_scheme
    }

    /// The context with a scheme that is known to win here.
    pub fn with_frozen_scheme(self, scheme_id: SchemeId) -> (ctx: CompressorContext<O>)
        ensures
            ctx@ == (ContextModel { frozen_scheme: Some(scheme_id), ..self@ }),
    {
        let mut ctx = self;
        ctx.frozen_scheme = Some(scheme_id);
        ctx
    }

    /// Who is told which scheme wins here, if anyone.
    pub fn winner_observer(&self) -> (o: Option<&Arc<O>>)
        ensures
            match o {
                Some(o) => self@.winner_observer == Some(*o),
                None => self@.winner_observer is None,
            },
    {
        self.winner_observer.as_ref()
    }

    /// The context with someone who is told which scheme wins here.
    pub fn with_winner_observer(self, observer: Arc<O>) -> (ctx: CompressorContext<O>)
        ensures
            ctx@ == (ContextModel { winner_observer: Some(observer), ..self@ }),
    {
        let mut ctx = self;
        ctx.winner_observer = Some(observer);
        ctx
    }
}

/// The context after descending through several schemes.
pub open spec fn descended_through<O>(ctx: ContextModel<O>, steps: Seq<(SchemeId, usize)>) -> ContextModel<
    O,
>
    decreases steps.len(),
{
    if steps.len() == 0 {
        ctx
    } else {
        let before = descended_through(ctx, steps.drop_last());
        descended(before, steps.last().0, steps.last().1)
    }
}

/// Whether each of several descents is allowed.
pub open spec fn descents_allowed<O>(ctx: ContextModel<O>, steps: Seq<(SchemeId, usize)>) -> bool {
    forall|i: int|
        0 <= i < steps.len() ==> (#[trigger] descended_through(
            ctx,
            steps.take(i),
        )).allowed_cascading > 0
}

/// From a fresh context at most `MAX_CASCADE` descents are allowed. After any of them the history
/// is the descents in order, depth and levels left add up to `MAX_CASCADE`, and no hint is left.
pub proof fn cascade_is_bounded<O>(steps: Seq<(SchemeId, usize)>)
    requires
        descents_allowed(fresh_context::<O>(), steps),
    ensures
        steps.len() <= MAX_CASCADE,
        ({
            let ctx = descended_through(fresh_context::<O>(), steps);
            &&& ctx.cascade_history == steps
            &&& ctx.cascade_history.len() + ctx.allowed_cascading == MAX_CASCADE
            &&& ctx.frozen_scheme is None
            &&& ctx.winner_observer is None
            &&& !ctx.is_sample
        }),
    decreases steps.len(),
{
    let fresh = fresh_context::<O>();
    if steps.len() > 0 {
        let before = steps.drop_last();
        assert forall|i: int| 0 <= i < before.len() implies (#[trigger] descended_through(
            fresh,
            before.take(i),
        )).allowed_cascading > 0 by {
            assert(before.take(i) =~= steps.take(i));
        }
        cascade_is_bounded::<O>(before);
        assert(steps.take(steps.len() - 1) =~= before);
        assert(descended_through(fresh, steps.take(steps.len() - 1)).allowed_cascading > 0);
        assert(before.push((steps.last().0, steps.last().1)) =~= steps);
    }
}

/// A hint set at one level is not seen below it.
pub proof fn hints_end_at_their_level<O>(
    ctx: ContextModel<O>,
    hint: SchemeId,
    observer: Arc<O>,
    id: SchemeId,
    child_index: usize,
)
    requires
        ctx.allowed_cascading > 0,
    ensures
        ({
            let hinted = ContextModel {
                frozen_scheme: Some(hint),
                winner_observer: Some(observer),
                ..ctx
            };
            &&& descended(hinted, id, child_index) == descended(ctx, id, child_index)
            &&& descended(hinted, id, child_index).frozen_scheme is None
            &&& descended(hinted, id, child_index).winner_observer is None
        }),
{
}

/// A cascade in words names every step in order: the first step is its scheme and its child in
/// brackets, each further one follows after an arrow, and the compressor itself is called root. The
/// child is a number in decimal. Where there is no step yet the words are just `root`.
pub proof fn path_names_every_step(
    history: Seq<(SchemeId, usize)>,
    id: SchemeId,
    child: usize,
    number: Seq<char>,
)
    requires
        number == text::decimal_text(child as nat),
    ensures
        ({
            let name = if id.name@ == "vortex.compressor.root"@ {
                "root"@
            } else {
                id.name@
            };
            let path = path_text(history.push((id, child)));
            &&& text::denotes(number, child as nat)
            &&& history.len() == 0 ==> path == name + "["@ + number + "]"@
            &&& history.len() > 0 ==> path == path_text(history) + " > "@ + (name + "["@ + number
                + "]"@)
        }),
        path_text(Seq::empty()) == "root"@,
{
    text::decimal_text_denotes(child as nat);
    let more = history.push((id, child));
    assert(more.drop_last() =~= history);
}

/// A compression starts with three levels, and each level down takes one and appends one step to
/// the history, whatever the context. The statistics and the sampling go down with it.
pub proof fn each_level_takes_one<O>(ctx: ContextModel<O>, id: SchemeId, child_index: usize)
    requires
        ctx.allowed_cascading > 0,
    ensures
        fresh_context::<O>().allowed_cascading == 3,
        ({
            let below = descended(ctx, id, child_index);
            &&& below.allowed_cascading + 1 == ctx.allowed_cascading
            &&& below.cascade_history.len() == ctx.cascade_history.len() + 1
            &&& below.cascade_history.last() == (id, child_index)
            &&& forall|i: int|
                0 <= i < ctx.cascade_history.len() ==> #[trigger] below.cascade_history[i]
                    == ctx.cascade_history[i]
            &&& below.is_sample == ctx.is_sample
            &&& below.merged_stats_options == ctx.merged_stats_options
        }),
{
}

} // verus!
