//! The layout strategy with which a file is written.
use std::sync::Arc;
use vstd::prelude::*;

use crate::compressor::ctx::SchemeId;
use crate::compressor::scheme::int_dict_id;
use crate::file::encodings;
use crate::file::encodings::{allowed_encodings, ArrayId, EncodingFeatures};
use crate::file::field_map::{FieldMap, FieldPath};

verus! {

/// Two to the power 20.
pub const ONE_MEG: u64 = 1048576;

/// The row block size, unless told otherwise.
pub const DEFAULT_ROW_BLOCK_SIZE: usize = 8192;

/// A statistic of a chunk.
#[derive(Clone, Copy, Debug, PartialEq, Eq, Structural)]
pub enum Stat {
    IsConstant,
    IsSorted,
    IsStrictSorted,
    Max,
    Min,
    Sum,
    NullCount,
    UncompressedSizeInBytes,
    NaNCount,
}

/// The stock compressor without some of its schemes.
#[derive(Debug)]
pub struct BtrBlocksCompressorBuilder {
    pub excluded: Vec<SchemeId>,
}

impl Default for BtrBlocksCompressorBuilder {
    fn default() -> (b: BtrBlocksCompressorBuilder)
        ensures
            b.excluded@ == Seq::<SchemeId>::empty(),
    {
        BtrBlocksCompressorBuilder { excluded: Vec::new() }
    }
}

impl BtrBlocksCompressorBuilder {
    /// The same compressor, in a value of its own, without another of its schemes.
    pub fn excluding(&self, id: SchemeId) -> (b: BtrBlocksCompressorBuilder)
        ensures
            b.excluded@ == self.excluded@.push(id),
    {
        let mut excluded: Vec<SchemeId> = Vec::new();
        let mut i: usize = 0;
        while i < self.excluded.len()
            invariant
                i <= self.excluded@.len(),
                excluded@ == self.excluded@.take(i as int),
            decreases self.excluded@.len() - i,
        {
            excluded.push(self.excluded[i]);
            i = i + 1;
            assert(excluded@ =~= self.excluded@.take(i as int));
        }
        excluded.push(id);
        assert(excluded@ =~= self.excluded@.push(id));
        BtrBlocksCompressorBuilder { excluded }
    }
}

/// A compressor: the stock one, or one of the caller's.
pub enum CompressorPlugin<P> {
    BtrBlocks(Arc<BtrBlocksCompressorBuilder>),
    Opaque(Arc<P>),
}

impl<P> CompressorPlugin<P> {
    /// Another handle on the same compressor.
    fn share(&self) -> (c: CompressorPlugin<P>)
        ensures
            c == *self,
    {
        match self {
            CompressorPlugin::BtrBlocks(b) => CompressorPlugin::BtrBlocks(Arc::clone(b)),
            CompressorPlugin::Opaque(p) => CompressorPlugin::Opaque(Arc::clone(p)),
        }
    }
}

/// How rows are regrouped into blocks.
#[derive(Clone, Copy, Debug, PartialEq, Eq, Structural)]
pub struct RepartitionWriterOptions {
    pub block_size_minimum: u64,
    pub block_len_multiple: usize,
    pub block_size_target: Option<u64>,
    pub canonicalize: bool,
}

/// A layout strategy: what is done with the chunks of a column, one step around the next.
pub enum LayoutStrategy<L, P> {
    /// Each chunk on its own, in one of some encodings if they are limited.
    Flat { allow_encodings: Option<Arc<Vec<ArrayId>>> },
    /// A strategy of the caller's.
    Custom(Arc<L>),
    /// A sequence of chunks.
    Chunked { child: Arc<LayoutStrategy<L, P>> },
    /// Chunks held back until they have some bytes.
    Buffered { child: Arc<LayoutStrategy<L, P>>, buffer_size: u64 },
    /// Chunks compressed, after some statistics, or all, are computed.
    Compressing {
        child: Arc<LayoutStrategy<L, P>>,
        compressor: CompressorPlugin<P>,
        stats: Option<Arc<Vec<Stat>>>,
    },
    /// Rows regrouped into blocks.
    Repartition { child: Arc<LayoutStrategy<L, P>>, options: RepartitionWriterOptions },
    /// A dictionary of the column, where the probe finds it worth while.
    Dict {
        codes: Arc<LayoutStrategy<L, P>>,
        values: Arc<LayoutStrategy<L, P>>,
        fallback: Arc<LayoutStrategy<L, P>>,
        probe: CompressorPlugin<P>,
    },
    /// Statistics for each block of rows.
    Zoned {
        child: Arc<LayoutStrategy<L, P>>,
        zone_stats: Arc<LayoutStrategy<L, P>>,
        block_size: usize,
    },
    /// All chunks together as one.
    Collect { child: Arc<LayoutStrategy<L, P>> },
    /// Columns each on their own.
    Table {
        validity: Arc<LayoutStrategy<L, P>>,
        fallback: Arc<LayoutStrategy<L, P>>,
        field_writers: FieldMap<Arc<LayoutStrategy<L, P>>>,
    },
}

/// Whether a strategy writes chunks as they are: the caller's flat strategy, or the flat strategy
/// with the allowed encodings.
pub open spec fn is_flat<L, P>(
    s: LayoutStrategy<L, P>,
    custom: Option<Arc<L>>,
    allow_encodings: Option<Arc<Vec<ArrayId>>>,
) -> bool {
    match custom {
        Some(l) => s matches LayoutStrategy::Custom(c) && c == l,
        None => s matches LayoutStrategy::Flat { allow_encodings: a } && a == allow_encodings,
    }
}

/// Whether a strategy compresses chunks with `compressor` after all statistics and writes them.
pub open spec fn compresses_then_writes<L, P>(
    s: LayoutStrategy<L, P>,
    flat: LayoutStrategy<L, P>,
    compressor: CompressorPlugin<P>,
) -> bool {
    s matches LayoutStrategy::Compressing { child, compressor: c, stats } && *child == flat && c
        == compressor && stats is None
}

/// Whether a strategy coalesces rows to a mebibyte, compresses them with `data`, holds back two
/// mebibytes of chunks, and writes them in sequence.
pub open spec fn coalesces<L, P>(
    s: LayoutStrategy<L, P>,
    flat: LayoutStrategy<L, P>,
    data: CompressorPlugin<P>,
    stats: Option<Arc<Vec<Stat>>>,
    row_block_size: usize,
) -> bool {
    &&& s matches LayoutStrategy::Repartition { child: compressing, options }
    &&& options == (RepartitionWriterOptions {
        block_size_minimum: ONE_MEG,
        block_len_multiple: row_block_size,
        block_size_target: Some(ONE_MEG),
        canonicalize: true,
    })
    &&& *compressing matches LayoutStrategy::Compressing { child: buffered, compressor, stats: st }
    &&& compressor == data
    &&& st == stats
    &&& *buffered matches LayoutStrategy::Buffered { child: chunked, buffer_size }
    &&& buffer_size == 2 * ONE_MEG
    &&& *chunked matches LayoutStrategy::Chunked { child: leaf }
    &&& *leaf == flat
}

/// Whether a strategy is the chain for a column compressed with `data`: blocks of rows; statistics
/// for each; a dictionary, which `probe` probes for, or else the column itself; either coalesced,
/// compressed and written. Statistics and dictionary values are written with `support`.
pub open spec fn is_field_chain<L, P>(
    s: LayoutStrategy<L, P>,
    flat: LayoutStrategy<L, P>,
    support: LayoutStrategy<L, P>,
    data: CompressorPlugin<P>,
    probe: CompressorPlugin<P>,
    stats: Option<Arc<Vec<Stat>>>,
    row_block_size: usize,
) -> bool {
    &&& s matches LayoutStrategy::Repartition { child: zoned, options }
    &&& options == (RepartitionWriterOptions {
        block_size_minimum: 0,
        block_len_multiple: row_block_size,
        block_size_target: None,
        canonicalize: false,
    })
    &&& *zoned matches LayoutStrategy::Zoned { child: dict, zone_stats, block_size }
    &&& block_size == row_block_size
    &&& *zone_stats == support
    &&& *dict matches LayoutStrategy::Dict { codes, values, fallback, probe: dict_probe }
    &&& *values == support
    &&& dict_probe == probe
    &&& codes == fallback
    &&& coalesces(*codes, flat, data, stats, row_block_size)
}

/// Builds the chain for a column.
fn build_field_chain<L, P>(
    flat: &Arc<LayoutStrategy<L, P>>,
    support: &Arc<LayoutStrategy<L, P>>,
    data: CompressorPlugin<P>,
    probe: &CompressorPlugin<P>,
    stats: &Option<Arc<Vec<Stat>>>,
    row_block_size: usize,
) -> (s: Arc<LayoutStrategy<L, P>>)
    ensures
        is_field_chain(*s, **flat, **support, data, *probe, *stats, row_block_size),
{
    let chunked = LayoutStrategy::Chunked { child: Arc::clone(flat) };
    let buffered = LayoutStrategy::Buffered { child: Arc::new(chunked), buffer_size: 2 * ONE_MEG };
    let shared_stats = match stats {
        Some(s) => Some(Arc::clone(s)),
        None => None,
    };
    let compressing = LayoutStrategy::Compressing {
        child: Arc::new(buffered),
        compressor: data,
        stats: shared_stats,
    };
    let coalescing = Arc::new(
        LayoutStrategy::Repartition {
            child: Arc::new(compressing),
            options: RepartitionWriterOptions {
                block_size_minimum: ONE_MEG,
                block_len_multiple: row_block_size,
                block_size_target: Some(ONE_MEG),
                canonicalize: true,
            },
        },
    );
    let dict = LayoutStrategy::Dict {
        codes: Arc::clone(&coalescing),
        values: Arc::clone(support),
        fallback: coalescing,
        probe: probe.share(),
    };
    let zoned = LayoutStrategy::Zoned {
        child: Arc::new(dict),
        zone_stats: Arc::clone(support),
        block_size: row_block_size,
    };
    Arc::new(
        LayoutStrategy::Repartition {
            child: Arc::new(zoned),
            options: RepartitionWriterOptions {
                block_size_minimum: 0,
                block_len_multiple: row_block_size,
                block_size_target: None,
                canonicalize: false,
            },
        },
    )
}

/// How a file is to be written. `L` are the caller's own layout strategies, `P` the caller's own
/// compressors.
pub struct WriteStrategyBuilder<L, P> {
    compressor: CompressorPlugin<P>,
    probe_compressor: Option<CompressorPlugin<P>>,
    row_block_size: usize,
    field_writers: FieldMap<Arc<LayoutStrategy<L, P>>>,
    field_compressors: FieldMap<CompressorPlugin<P>>,
    allow_encodings: Option<Arc<Vec<ArrayId>>>,
    flat_strategy: Option<Arc<L>>,
    compressing_stats: Option<Arc<Vec<Stat>>>,
}

/// What a builder holds.
#[verifier::ext_equal]
pub struct BuilderModel<L, P> {
    pub compressor: CompressorPlugin<P>,
    pub probe_compressor: Option<CompressorPlugin<P>>,
    pub row_block_size: usize,
    pub field_writers: Map<Seq<Seq<char>>, Arc<LayoutStrategy<L, P>>>,
    pub field_compressors: Map<Seq<Seq<char>>, CompressorPlugin<P>>,
    pub allow_encodings: Option<Arc<Vec<ArrayId>>>,
    pub flat_strategy: Option<Arc<L>>,
    pub compressing_stats: Option<Arc<Vec<Stat>>>,
}

impl<L, P> View for WriteStrategyBuilder<L, P> {
    type V = BuilderModel<L, P>;

    closed spec fn view(&self) -> BuilderModel<L, P> {
        BuilderModel {
            compressor: self.compressor,
            probe_compressor: self.probe_compressor,
            row_block_size: self.row_block_size,
            field_writers: self.field_writers@,
            field_compressors: self.field_compressors@,
            allow_encodings: self.allow_encodings,
            flat_strategy: self.flat_strategy,
            compressing_stats: self.compressing_stats,
        }
    }
}

/// Whether the stock compressor `b` is `builder` without the dictionary scheme for integers.
pub open spec fn without_int_dict(
    builder: BtrBlocksCompressorBuilder,
    b: BtrBlocksCompressorBuilder,
) -> bool {
    &&& b.excluded@.len() == builder.excluded@.len() + 1
    &&& b.excluded@.drop_last() == builder.excluded@
    &&& b.excluded@.last()@ == "vortex.int.dict"@
}

/// Whether `data` compresses the columns of a file written with `configured`: the stock compressor
/// without dictionaries of integers, which the layout builds already; any other as it is.
pub open spec fn is_data_compressor<P>(configured: CompressorPlugin<P>, data: CompressorPlugin<P>) -> bool {
    match configured {
        CompressorPlugin::BtrBlocks(builder) => data matches CompressorPlugin::BtrBlocks(b)
            && without_int_dict(*builder, *b),
        CompressorPlugin::Opaque(_) => data == configured,
    }
}

/// The compressor that probes whether a column is worth a dictionary: the one set for it, or else
/// the configured one, which unlike the compressor of the columns can still find a column of
/// integers worth one.
pub open spec fn probe_of<L, P>(m: BuilderModel<L, P>) -> CompressorPlugin<P> {
    match m.probe_compressor {
        Some(p) => p,
        None => m.compressor,
    }
}

/// Whether `s` is the strategy that a builder describes. Columns are split. A field with a writer
/// is written with it; any other field with a compressor is written by the chain for that
/// compressor; all others by the chain for the configured one.
pub open spec fn is_built<L, P>(m: BuilderModel<L, P>, s: LayoutStrategy<L, P>) -> bool {
    exists|flat: LayoutStrategy<L, P>, support: LayoutStrategy<L, P>, data: CompressorPlugin<P>|
        {
            &&& #[trigger] is_flat(flat, m.flat_strategy, m.allow_encodings)
            &&& #[trigger] compresses_then_writes(support, flat, m.compressor)
            &&& #[trigger] is_data_compressor(m.compressor, data)
            &&& is_table(m, flat, support, data, s)
        }
}

/// Whether `s` splits columns over the given flat, support and data strategies.
pub open spec fn is_table<L, P>(
    m: BuilderModel<L, P>,
    flat: LayoutStrategy<L, P>,
    support: LayoutStrategy<L, P>,
    data: CompressorPlugin<P>,
    s: LayoutStrategy<L, P>,
) -> bool {
    &&& s matches LayoutStrategy::Table { validity, fallback, field_writers }
    &&& *validity matches LayoutStrategy::Collect { child }
    &&& *child == support
    &&& is_field_chain(
        *fallback,
        flat,
        support,
        data,
        probe_of(m),
        m.compressing_stats,
        m.row_block_size,
    )
    &&& field_writers.wf()
    &&& field_writers@.dom() == m.field_writers.dom().union(m.field_compressors.dom())
    &&& forall|path: Seq<Seq<char>>| #[trigger]
        m.field_writers.dom().contains(path) ==> field_writers@[path] == m.field_writers[path]
    &&& forall|path: Seq<Seq<char>>|
        m.field_compressors.dom().contains(path) && !m.field_writers.dom().contains(path)
            ==> is_field_chain(
            *#[trigger] field_writers@[path],
            flat,
            support,
            m.field_compressors[path],
            probe_of(m),
            m.compressing_stats,
            m.row_block_size,
        )
}

/// A builder as it starts: the stock compressor, blocks of `DEFAULT_ROW_BLOCK_SIZE` rows, every
/// encoding that the features allow, and nothing else.
pub open spec fn is_default<L, P>(m: BuilderModel<L, P>, features: EncodingFeatures) -> bool {
    &&& m.compressor matches CompressorPlugin::BtrBlocks(b)
    &&& b.excluded@ == Seq::<SchemeId>::empty()
    &&& m.probe_compressor is None
    &&& m.row_block_size == DEFAULT_ROW_BLOCK_SIZE
    &&& m.field_writers == Map::<Seq<Seq<char>>, Arc<LayoutStrategy<L, P>>>::empty()
    &&& m.field_compressors == Map::<Seq<Seq<char>>, CompressorPlugin<P>>::empty()
    &&& m.allow_encodings matches Some(ids)
    &&& forall|id: ArrayId| #[trigger] ids@.contains(id) <==> encodings::allowed(features, id)
    &&& m.flat_strategy is None
    &&& m.compressing_stats is None
}

impl<L, P> Default for WriteStrategyBuilder<L, P> {
    fn default() -> (b: WriteStrategyBuilder<L, P>)
        ensures
            b.wf(),
            is_default(
                b@,
                EncodingFeatures {
                    unstable_encodings: false,
                    zstd: false,
                    experimental_patches: false,
                },
            ),
    {
        WriteStrategyBuilder::with_features(
            EncodingFeatures {
                unstable_encodings: false,
                zstd: false,
                experimental_patches: false,
            },
        )
    }
}

impl<L, P> WriteStrategyBuilder<L, P> {
    /// No field has two writers or two compressors.
    pub closed spec fn wf(&self) -> bool {
        self.field_writers.wf() && self.field_compressors.wf()
    }

    /// A builder that allows the encodings of some features.
    pub fn with_features(features: EncodingFeatures) -> (b: WriteStrategyBuilder<L, P>)
        ensures
            b.wf(),
            is_default(b@, features),
    {
        WriteStrategyBuilder {
            compressor: CompressorPlugin::BtrBlocks(Arc::new(BtrBlocksCompressorBuilder::default())),
            probe_compressor: None,
            row_block_size: DEFAULT_ROW_BLOCK_SIZE,
            field_writers: FieldMap::new(),
            field_compressors: FieldMap::new(),
            allow_encodings: Some(Arc::new(allowed_encodings(features))),
            flat_strategy: None,
            compressing_stats: None,
        }
    }

    /// Sets the number of rows in a block.
    pub fn with_row_block_size(self, row_block_size: usize) -> (b: WriteStrategyBuilder<L, P>)
        requires
            self.wf(),
        ensures
            b.wf(),
            b@ == (BuilderModel { row_block_size, ..self@ }),
    {
        let mut b = self;
        b.row_block_size = row_block_size;
        b
    }

    /// Sets the strategy of a field.
    pub fn with_field_writer(self, field: FieldPath, writer: Arc<LayoutStrategy<L, P>>) -> (b:
        WriteStrategyBuilder<L, P>)
        requires
            self.wf(),
        ensures
            b.wf(),
            b@ == (BuilderModel {
                field_writers: self@.field_writers.insert(field@, writer),
                ..self@
            }),
    {
        let mut b = self;
        b.field_writers.insert(field, writer);
        b
    }

    /// Sets the encodings that may be written.
    pub fn with_allow_encodings(self, allow_encodings: Arc<Vec<ArrayId>>) -> (b:
        WriteStrategyBuilder<L, P>)
        requires
            self.wf(),
        ensures
            b.wf(),
            b@ == (BuilderModel { allow_encodings: Some(allow_encodings), ..self@ }),
    {
        let mut b = self;
        b.allow_encodings = Some(allow_encodings);
        b
    }

    /// Sets the strategy that writes chunks as they are.
    pub fn with_flat_strategy(self, flat: Arc<L>) -> (b: WriteStrategyBuilder<L, P>)
        requires
            self.wf(),
        ensures
            b.wf(),
            b@ == (BuilderModel { flat_strategy: Some(flat), ..self@ }),
    {
        let mut b = self;
        b.flat_strategy = Some(flat);
        b
    }

    /// Sets the stock compressor's schemes.
    pub fn with_btrblocks_builder(self, builder: BtrBlocksCompressorBuilder) -> (b:
        WriteStrategyBuilder<L, P>)
        requires
            self.wf(),
        ensures
            b.wf(),
            b@ == (BuilderModel { compressor: b@.compressor, ..self@ }),
            b@.compressor matches CompressorPlugin::BtrBlocks(c) && *c == builder,
    {
        let mut b = self;
        b.compressor = CompressorPlugin::BtrBlocks(Arc::new(builder));
        b
    }

    /// Sets a compressor of the caller's for columns and statistics alike.
    pub fn with_compressor(self, compressor: P) -> (b: WriteStrategyBuilder<L, P>)
        requires
            self.wf(),
        ensures
            b.wf(),
            b@ == (BuilderModel { compressor: b@.compressor, ..self@ }),
            b@.compressor matches CompressorPlugin::Opaque(c) && *c == compressor,
    {
        let mut b = self;
        b.compressor = CompressorPlugin::Opaque(Arc::new(compressor));
        b
    }

    /// Sets the compressor that probes whether a column is worth a dictionary. Unless set, that is
    /// the compressor of the statistics.
    pub fn with_probe_compressor(self, probe: CompressorPlugin<P>) -> (b: WriteStrategyBuilder<L, P>)
        requires
            self.wf(),
        ensures
            b.wf(),
            b@ == (BuilderModel { probe_compressor: Some(probe), ..self@ }),
    {
        let mut b = self;
        b.probe_compressor = Some(probe);
        b
    }

    /// Sets the statistics that are computed before columns are compressed.
    pub fn with_compressing_stats(self, stats: Vec<Stat>) -> (b: WriteStrategyBuilder<L, P>)
        requires
            self.wf(),
        ensures
            b.wf(),
            b@ == (BuilderModel { compressing_stats: b@.compressing_stats, ..self@ }),
            b@.compressing_stats matches Some(s) && *s == stats,
    {
        let mut b = self;
        b.compressing_stats = Some(Arc::new(stats));
        b
    }

    /// Sets the compressors of some fields, in place of any set before. Where a field is given
    /// twice, the last compressor counts. A field with a writer of its own keeps that.
    pub fn with_field_compressors(self, compressors: Vec<(FieldPath, CompressorPlugin<P>)>) -> (b:
        WriteStrategyBuilder<L, P>)
        requires
            self.wf(),
        ensures
            b.wf(),
            b@ == (BuilderModel { field_compressors: collected(compressors@), ..self@ }),
    {
        let ghost all = compressors@;
        let mut map: FieldMap<CompressorPlugin<P>> = FieldMap::new();
        assert(all.take(0) =~= Seq::empty());
        for entry in it: compressors
            invariant
                it.seq() == all,
                map.wf(),
                map@ == collected(all.take(it.index() as int)),
        {
            let ghost n = it.index() as int;
            proof {
                assert(entry == all[n]);
                assert(all.take(n + 1).drop_last() =~= all.take(n));
            }
            map.insert(entry.0, entry.1);
        }
        assert(all.take(all.len() as int) =~= all);
        let mut b = self;
        b.field_compressors = map;
        b
    }

    /// Builds the strategy.
    pub fn build(self) -> (s: Arc<LayoutStrategy<L, P>>)
        requires
            self.wf(),
        ensures
            is_built(self@, *s),
    {
        let flat: Arc<LayoutStrategy<L, P>> = match self.flat_strategy {
            Some(l) => Arc::new(LayoutStrategy::Custom(l)),
            None => Arc::new(LayoutStrategy::Flat { allow_encodings: self.allow_encodings }),
        };
        let default_data_compressor: CompressorPlugin<P> = match &self.compressor {
            CompressorPlugin::BtrBlocks(builder) => {
                let b = builder.excluding(int_dict_id());
                assert(b.excluded@.drop_last() =~= builder.excluded@);
                CompressorPlugin::BtrBlocks(Arc::new(b))
            },
            CompressorPlugin::Opaque(p) => CompressorPlugin::Opaque(Arc::clone(p)),
        };
        let probe: CompressorPlugin<P> = match self.probe_compressor {
            Some(p) => p,
            None => self.compressor.share(),
        };
        let compress_then_flat = Arc::new(
            LayoutStrategy::Compressing {
                child: Arc::clone(&flat),
                compressor: self.compressor,
                stats: None,
            },
        );
        let ghost m = self@;
        let field_writers = merge_field_writers(
            self.field_writers,
            self.field_compressors,
            &flat,
            &compress_then_flat,
            &probe,
            &self.compressing_stats,
            self.row_block_size,
        );
        let fallback = build_field_chain(
            &flat,
            &compress_then_flat,
            default_data_compressor,
            &probe,
            &self.compressing_stats,
            self.row_block_size,
        );
        let validity = Arc::new(
            LayoutStrategy::Collect { child: Arc::clone(&compress_then_flat) },
        );
        let table = LayoutStrategy::Table { validity, fallback, field_writers };
        proof {
            assert(is_flat(*flat, m.flat_strategy, m.allow_encodings));
            assert(compresses_then_writes(*compress_then_flat, *flat, m.compressor));
            assert(is_data_compressor(m.compressor, default_data_compressor));
            assert(is_table(m, *flat, *compress_then_flat, default_data_compressor, table));
        }
        Arc::new(table)
    }
}

/// A map from entries of which later ones count.
pub open spec fn collected<V>(entries: Seq<(FieldPath, V)>) -> Map<Seq<Seq<char>>, V>
    decreases entries.len(),
{
    if entries.len() == 0 {
        Map::empty()
    } else {
        collected(entries.drop_last()).insert(entries.last().0@, entries.last().1)
    }
}

/// The writers of all fields: each field's own, or the chain for its compressor.
fn merge_field_writers<L, P>(
    writers: FieldMap<Arc<LayoutStrategy<L, P>>>,
    compressors: FieldMap<CompressorPlugin<P>>,
    flat: &Arc<LayoutStrategy<L, P>>,
    support: &Arc<LayoutStrategy<L, P>>,
    probe: &CompressorPlugin<P>,
    stats: &Option<Arc<Vec<Stat>>>,
    row_block_size: usize,
) -> (out: FieldMap<Arc<LayoutStrategy<L, P>>>)
    requires
        writers.wf(),
        compressors.wf(),
    ensures
        out.wf(),
        out@.dom() == writers@.dom().union(compressors@.dom()),
        forall|path: Seq<Seq<char>>| #[trigger]
            writers@.dom().contains(path) ==> out@[path] == writers@[path],
        forall|path: Seq<Seq<char>>|
            compressors@.dom().contains(path) && !writers@.dom().contains(path) ==> is_field_chain(
                *#[trigger] out@[path],
                **flat,
                **support,
                compressors@[path],
                *probe,
                *stats,
                row_block_size,
            ),
{
    let ghost own = writers@;
    let ghost given = compressors@;
    let mut out = writers;
    let entries = compressors.into_entries();
    let ghost all = entries@;
    for entry in it: entries
        invariant
            it.seq() == all,
            forall|i: int|
                0 <= i < all.len() ==> given.dom().contains((#[trigger] all[i]).0@)
                    && given[all[i].0@] == all[i].1,
            forall|i: int, j: int|
                0 <= i < j < all.len() ==> (#[trigger] all[i]).0@ != (#[trigger] all[j]).0@,
            out.wf(),
            forall|path: Seq<Seq<char>>| #[trigger]
                out@.dom().contains(path) <==> own.dom().contains(path) || exists|i: int|
                    0 <= i < it.index() && (#[trigger] all[i]).0@ == path,
            forall|path: Seq<Seq<char>>| #[trigger]
                own.dom().contains(path) ==> out@[path] == own[path],
            forall|i: int|
                0 <= i < it.index() && !own.dom().contains(all[i].0@) ==> is_field_chain(
                    *out@[(#[trigger] all[i]).0@],
                    **flat,
                    **support,
                    all[i].1,
                    *probe,
                    *stats,
                    row_block_size,
                ),
    {
        let ghost n = it.index() as int;
        let ghost before = out@;
        assert(entry == all[n]);
        let path = entry.0;
        let chain = build_field_chain(flat, support, entry.1, probe, stats, row_block_size);
        out.insert_if_absent(path, chain);
        proof {
            assert forall|p: Seq<Seq<char>>| #[trigger] out@.dom().contains(p) <==> own.dom().contains(
                p,
            ) || exists|i: int| 0 <= i < n + 1 && (#[trigger] all[i]).0@ == p by {
                if p == path@ {
                    assert(all[n].0@ == p);
                } else {
                    assert(out@.dom().contains(p) == before.dom().contains(p));
                    if exists|i: int| 0 <= i < n + 1 && (#[trigger] all[i]).0@ == p {
                        let i = choose|i: int| 0 <= i < n + 1 && (#[trigger] all[i]).0@ == p;
                        assert(i < n);
                    }
                }
            }
            if !own.dom().contains(path@) {
                assert(!before.dom().contains(path@)) by {
                    if before.dom().contains(path@) {
                        let i = choose|i: int| 0 <= i < n && (#[trigger] all[i]).0@ == path@;
                        assert(all[i].0@ != all[n].0@);
                    }
                }
            }
            assert forall|i: int| 0 <= i < n + 1 && !own.dom().contains(all[i].0@) implies is_field_chain(
                *out@[(#[trigger] all[i]).0@],
                **flat,
                **support,
                all[i].1,
                *probe,
                *stats,
                row_block_size,
            ) by {
                if i < n {
                    assert(all[i].0@ != all[n].0@);
                }
            }
        }
    }
    proof {
        assert forall|path: Seq<Seq<char>>| out@.dom().contains(path) <==> own.dom().union(
            given.dom(),
        ).contains(path) by {
            if given.dom().contains(path) {
                let i = choose|i: int| 0 <= i < all.len() && (#[trigger] all[i]).0@ == path;
                assert(all[i].0@ == path);
            }
            if exists|i: int| 0 <= i < all.len() && (#[trigger] all[i]).0@ == path {
                let i = choose|i: int| 0 <= i < all.len() && (#[trigger] all[i]).0@ == path;
                assert(given.dom().contains(all[i].0@));
            }
        }
        assert(out@.dom() =~= own.dom().union(given.dom()));
        assert forall|path: Seq<Seq<char>>|
            given.dom().contains(path) && !own.dom().contains(path) implies is_field_chain(
            *#[trigger] out@[path],
            **flat,
            **support,
            given[path],
            *probe,
            *stats,
            row_block_size,
        ) by {
            let i = choose|i: int| 0 <= i < all.len() && (#[trigger] all[i]).0@ == path;
            assert(all[i].0@ == path);
        }
    }
    out
}

/// A field's own writer wins over a compressor for the same field.
pub proof fn field_writer_wins<L, P>(
    m: BuilderModel<L, P>,
    s: LayoutStrategy<L, P>,
    path: Seq<Seq<char>>,
)
    requires
        is_built(m, s),
        m.field_writers.dom().contains(path),
    ensures
        s matches LayoutStrategy::Table { validity, fallback, field_writers }
            && field_writers@.dom().contains(path) && field_writers@[path] == m.field_writers[path],
{
    let (flat, support, data) = choose|
        flat: LayoutStrategy<L, P>,
        support: LayoutStrategy<L, P>,
        data: CompressorPlugin<P>,
    |
        {
            &&& #[trigger] is_flat(flat, m.flat_strategy, m.allow_encodings)
            &&& #[trigger] compresses_then_writes(support, flat, m.compressor)
            &&& #[trigger] is_data_compressor(m.compressor, data)
            &&& is_table(m, flat, support, data, s)
        };
    assert(is_table(m, flat, support, data, s));
}

/// The compressor that probes for a dictionary in the chain of a column.
pub open spec fn chain_probe<L, P>(s: LayoutStrategy<L, P>) -> Option<CompressorPlugin<P>> {
    match s {
        LayoutStrategy::Repartition { child: zoned, options: _ } => match *zoned {
            LayoutStrategy::Zoned { child: dict, zone_stats: _, block_size: _ } => match *dict {
                LayoutStrategy::Dict { codes: _, values: _, fallback: _, probe } => Some(probe),
                _ => None,
            },
            _ => None,
        },
        _ => None,
    }
}

/// Unless told otherwise, columns are probed for a dictionary with the configured compressor, in
/// which no scheme is missing that the caller left in: in the chain of a field with a compressor of
/// its own as in the chain of all others.
pub proof fn columns_are_probed_as_configured<L, P>(
    m: BuilderModel<L, P>,
    s: LayoutStrategy<L, P>,
    path: Seq<Seq<char>>,
)
    requires
        is_built(m, s),
        m.probe_compressor is None,
    ensures
        s matches LayoutStrategy::Table { validity, fallback, field_writers } && {
            &&& chain_probe(*fallback) == Some(m.compressor)
            &&& m.field_compressors.dom().contains(path) && !m.field_writers.dom().contains(path)
                ==> chain_probe(*field_writers@[path]) == Some(m.compressor)
        },
{
    let (flat, support, data) = choose|
        flat: LayoutStrategy<L, P>,
        support: LayoutStrategy<L, P>,
        data: CompressorPlugin<P>,
    |
        {
            &&& #[trigger] is_flat(flat, m.flat_strategy, m.allow_encodings)
            &&& #[trigger] compresses_then_writes(support, flat, m.compressor)
            &&& #[trigger] is_data_compressor(m.compressor, data)
            &&& is_table(m, flat, support, data, s)
        };
    assert(is_table(m, flat, support, data, s));
}

/// What a reader of a column's chain finds on the way through it. Everything is read off the chain
/// itself, from the outermost step in.
#[verifier::ext_equal]
pub struct ChainParts<L, P> {
    /// How rows are regrouped first.
    pub blocks: RepartitionWriterOptions,
    /// How many rows a zone has.
    pub zone_len: usize,
    /// Where the statistics of the zones go.
    pub zone_stats: LayoutStrategy<L, P>,
    /// Where the values of a dictionary go.
    pub dict_values: LayoutStrategy<L, P>,
    /// What probes for a dictionary.
    pub probe: CompressorPlugin<P>,
    /// What follows a dictionary.
    pub codes: DataParts<L, P>,
    /// What follows in place of a dictionary.
    pub fallback: DataParts<L, P>,
}

/// What a reader finds on the way from rows to written chunks.
#[verifier::ext_equal]
pub struct DataParts<L, P> {
    /// How rows are coalesced.
    pub coalescing: RepartitionWriterOptions,
    /// What compresses them.
    pub compressor: CompressorPlugin<P>,
    /// Which statistics are computed before.
    pub stats: Option<Arc<Vec<Stat>>>,
    /// How many bytes are held back.
    pub held_back: u64,
    /// Where the chunks go in the end.
    pub leaf: LayoutStrategy<L, P>,
}

/// Reads the way from rows to written chunks.
pub open spec fn data_parts<L, P>(s: LayoutStrategy<L, P>) -> Option<DataParts<L, P>> {
    match s {
        LayoutStrategy::Repartition { child, options } => match *child {
            LayoutStrategy::Compressing { child: inner, compressor, stats } => match *inner {
                LayoutStrategy::Buffered { child: chunked, buffer_size } => match *chunked {
                    LayoutStrategy::Chunked { child: leaf } => Some(
                        DataParts {
                            coalescing: options,
                            compressor,
                            stats,
                            held_back: buffer_size,
                            leaf: *leaf,
                        },
                    ),
                    _ => None,
                },
                _ => None,
            },
            _ => None,
        },
        _ => None,
    }
}

/// Reads the chain of a column.
pub open spec fn chain_parts<L, P>(s: LayoutStrategy<L, P>) -> Option<ChainParts<L, P>> {
    match s {
        LayoutStrategy::Repartition { child: zoned, options } => match *zoned {
            LayoutStrategy::Zoned { child: dict, zone_stats, block_size } => match *dict {
                LayoutStrategy::Dict { codes, values, fallback, probe } => match (
                    data_parts(*codes),
                    data_parts(*fallback),
                ) {
                    (Some(after), Some(instead)) => Some(
                        ChainParts {
                            blocks: options,
                            zone_len: block_size,
                            zone_stats: *zone_stats,
                            dict_values: *values,
                            probe,
                            codes: after,
                            fallback: instead,
                        },
                    ),
                    _ => None,
                },
                _ => None,
            },
            _ => None,
        },
        _ => None,
    }
}

/// The writer of all columns without one of their own in a built strategy.
pub open spec fn fallback_of<L, P>(s: LayoutStrategy<L, P>) -> LayoutStrategy<L, P> {
    match s {
        LayoutStrategy::Table { validity: _, fallback, field_writers: _ } => *fallback,
        _ => s,
    }
}

/// The writer of a field in a built strategy: its own, or the one for all others.
pub open spec fn writer_of<L, P>(s: LayoutStrategy<L, P>, path: Seq<Seq<char>>) -> LayoutStrategy<
    L,
    P,
> {
    match s {
        LayoutStrategy::Table { validity: _, fallback, field_writers } => if field_writers@.dom().contains(
            path,
        ) {
            *field_writers@[path]
        } else {
            *fallback
        },
        _ => s,
    }
}

/// Whether chunks are written as they are where the builder wants them: by the caller's flat
/// strategy, or else in one of the allowed encodings.
pub open spec fn written_as_configured<L, P>(
    m: BuilderModel<L, P>,
    leaf: LayoutStrategy<L, P>,
) -> bool {
    match m.flat_strategy {
        Some(l) => leaf == LayoutStrategy::<L, P>::Custom(l),
        None => leaf == (LayoutStrategy::<L, P>::Flat { allow_encodings: m.allow_encodings }),
    }
}

/// Whether what is not a column, such as statistics and dictionary values, is compressed with the
/// configured compressor after all statistics and written like the columns.
pub open spec fn supports_as_configured<L, P>(
    m: BuilderModel<L, P>,
    support: LayoutStrategy<L, P>,
) -> bool {
    match support {
        LayoutStrategy::Compressing { child, compressor, stats } => {
            &&& written_as_configured(m, *child)
            &&& compressor == m.compressor
            &&& stats is None
        },
        _ => false,
    }
}

/// Whether the chain of a column is as configured in everything but what compresses its data.
pub open spec fn chained_as_configured<L, P>(m: BuilderModel<L, P>, parts: ChainParts<L, P>) -> bool {
    &&& parts.blocks.block_len_multiple == m.row_block_size
    &&& parts.blocks.block_size_minimum == 0
    &&& parts.blocks.block_size_target is None
    &&& !parts.blocks.canonicalize
    &&& parts.zone_len == m.row_block_size
    &&& parts.codes.coalescing.block_len_multiple == m.row_block_size
    &&& parts.codes.coalescing.block_size_minimum == 1024 * 1024
    &&& parts.codes.coalescing.block_size_target == Some((1024 * 1024) as u64)
    &&& parts.codes.coalescing.canonicalize
    &&& parts.codes.held_back == 2 * 1024 * 1024
    &&& parts.codes.stats == m.compressing_stats
    &&& written_as_configured(m, parts.codes.leaf)
    &&& supports_as_configured(m, parts.zone_stats)
    &&& supports_as_configured(m, parts.dict_values)
    &&& parts.fallback == parts.codes
    &&& match m.probe_compressor {
        Some(p) => parts.probe == p,
        None => parts.probe == m.compressor,
    }
}

/// Every column of a built strategy is chained as configured: the chain for all columns, and the
/// chain of each field with a compressor of its own and without a writer. The two differ in the
/// data compressor alone, which for such a field is its own as it is; for all others it is the
/// configured one, the stock compressor without its dictionaries of integers.
pub proof fn columns_are_chained_as_configured<L, P>(
    m: BuilderModel<L, P>,
    s: LayoutStrategy<L, P>,
    path: Seq<Seq<char>>,
)
    requires
        is_built(m, s),
        m.field_compressors.dom().contains(path),
        !m.field_writers.dom().contains(path),
    ensures
        chain_parts(writer_of(s, path)) is Some,
        chain_parts(fallback_of(s)) is Some,
        ({
            let field = chain_parts(writer_of(s, path))->Some_0;
            let rest = chain_parts(fallback_of(s))->Some_0;
            &&& chained_as_configured(m, field)
            &&& chained_as_configured(m, rest)
            &&& field == (ChainParts {
                codes: DataParts { compressor: field.codes.compressor, ..rest.codes },
                fallback: DataParts { compressor: field.codes.compressor, ..rest.fallback },
                ..rest
            })
            &&& field.codes.compressor == m.field_compressors[path]
        }),
{
    unconfigured_columns_are_chained(m, s);
    let (flat, support, data) = choose|
        flat: LayoutStrategy<L, P>,
        support: LayoutStrategy<L, P>,
        data: CompressorPlugin<P>,
    |
        {
            &&& #[trigger] is_flat(flat, m.flat_strategy, m.allow_encodings)
            &&& #[trigger] compresses_then_writes(support, flat, m.compressor)
            &&& #[trigger] is_data_compressor(m.compressor, data)
            &&& is_table(m, flat, support, data, s)
        };
    assert(is_table(m, flat, support, data, s));
    assert(is_field_chain(
        *s->field_writers@[path],
        flat,
        support,
        m.field_compressors[path],
        probe_of(m),
        m.compressing_stats,
        m.row_block_size,
    ));
}

/// A column without a writer or compressor of its own is chained as configured, and compressed with
/// the configured compressor; with the stock one less its dictionaries of integers, which the chain
/// builds already.
pub proof fn unconfigured_columns_are_chained<L, P>(
    m: BuilderModel<L, P>,
    s: LayoutStrategy<L, P>,
)
    requires
        is_built(m, s),
    ensures
        chain_parts(fallback_of(s)) is Some,
        ({
            let rest = chain_parts(fallback_of(s))->Some_0;
            &&& chained_as_configured(m, rest)
            &&& match m.compressor {
                CompressorPlugin::Opaque(_) => rest.codes.compressor == m.compressor,
                CompressorPlugin::BtrBlocks(builder) => match rest.codes.compressor {
                    CompressorPlugin::BtrBlocks(b) => {
                        &&& b.excluded@.len() == builder.excluded@.len() + 1
                        &&& forall|k: int|
                            0 <= k < builder.excluded@.len() ==> #[trigger] b.excluded@[k]
                                == builder.excluded@[k]
                        &&& b.excluded@[builder.excluded@.len() as int].name@ == "vortex.int.dict"@
                    },
                    CompressorPlugin::Opaque(_) => false,
                },
            }
        }),
{
    let (flat, support, data) = choose|
        flat: LayoutStrategy<L, P>,
        support: LayoutStrategy<L, P>,
        data: CompressorPlugin<P>,
    |
        {
            &&& #[trigger] is_flat(flat, m.flat_strategy, m.allow_encodings)
            &&& #[trigger] compresses_then_writes(support, flat, m.compressor)
            &&& #[trigger] is_data_compressor(m.compressor, data)
            &&& is_table(m, flat, support, data, s)
        };
    assert(is_table(m, flat, support, data, s));
    if let (CompressorPlugin::BtrBlocks(builder), CompressorPlugin::BtrBlocks(b)) = (
        m.compressor,
        data,
    ) {
        assert forall|k: int| 0 <= k < builder.excluded@.len() implies #[trigger] b.excluded@[k]
            == builder.excluded@[k] by {
            assert(b.excluded@.drop_last()[k] == builder.excluded@[k]);
        }
    }
}

/// The validity of all rows is written as one, like the statistics, and no field has a writer but
/// those that were given a writer or a compressor.
pub proof fn rows_and_fields_are_as_configured<L, P>(
    m: BuilderModel<L, P>,
    s: LayoutStrategy<L, P>,
    path: Seq<Seq<char>>,
)
    requires
        is_built(m, s),
    ensures
        s matches LayoutStrategy::Table { validity, fallback, field_writers } && {
            &&& *validity matches LayoutStrategy::Collect { child }
            &&& supports_as_configured(m, *child)
            &&& field_writers@.dom().contains(path) <==> m.field_writers.dom().contains(path)
                || m.field_compressors.dom().contains(path)
        },
        m.field_writers.dom().contains(path) ==> writer_of(s, path) == *m.field_writers[path],
        !m.field_writers.dom().contains(path) && !m.field_compressors.dom().contains(path)
            ==> writer_of(s, path) == fallback_of(s),
{
    let (flat, support, data) = choose|
        flat: LayoutStrategy<L, P>,
        support: LayoutStrategy<L, P>,
        data: CompressorPlugin<P>,
    |
        {
            &&& #[trigger] is_flat(flat, m.flat_strategy, m.allow_encodings)
            &&& #[trigger] compresses_then_writes(support, flat, m.compressor)
            &&& #[trigger] is_data_compressor(m.compressor, data)
            &&& is_table(m, flat, support, data, s)
        };
    assert(is_table(m, flat, support, data, s));
}

/// Of several compressors for a field the last counts.
pub proof fn last_entry_counts<V>(entries: Seq<(FieldPath, V)>, i: int)
    requires
        0 <= i < entries.len(),
        forall|j: int| i < j < entries.len() ==> (#[trigger] entries[j]).0@ != entries[i].0@,
    ensures
        collected(entries).dom().contains(entries[i].0@),
        collected(entries)[entries[i].0@] == entries[i].1,
    decreases entries.len(),
{
    if i < entries.len() - 1 {
        let before = entries.drop_last();
        assert(before[i] == entries[i]);
        assert(entries[entries.len() - 1].0@ != entries[i].0@);
        last_entry_counts(before, i);
    }
}

/// A field that is not among the entries has no compressor.
pub proof fn only_entries_count<V>(entries: Seq<(FieldPath, V)>, path: Seq<Seq<char>>)
    requires
        forall|j: int| 0 <= j < entries.len() ==> (#[trigger] entries[j]).0@ != path,
    ensures
        !collected(entries).dom().contains(path),
    decreases entries.len(),
{
    if entries.len() > 0 {
        let before = entries.drop_last();
        assert forall|j: int| 0 <= j < before.len() implies (#[trigger] before[j]).0@ != path by {
            assert(before[j] == entries[j]);
        }
        assert(entries[entries.len() - 1].0@ != path);
        only_entries_count(before, path);
    }
}

/// Built as it starts, a builder writes columns in blocks of 8192 rows with the stock compressor,
/// and chunks in any of the encodings that the features allow.
pub proof fn defaults_are_plain<L, P>(
    m: BuilderModel<L, P>,
    s: LayoutStrategy<L, P>,
    features: EncodingFeatures,
)
    requires
        is_default(m, features),
        is_built(m, s),
    ensures
        chain_parts(fallback_of(s)) is Some,
        ({
            let parts = chain_parts(fallback_of(s))->Some_0;
            &&& parts.blocks.block_len_multiple == 8192
            &&& parts.zone_len == 8192
            &&& parts.codes.coalescing.block_len_multiple == 8192
            &&& parts.codes.stats is None
            &&& parts.probe matches CompressorPlugin::BtrBlocks(b)
            &&& b.excluded@.len() == 0
            &&& parts.codes.leaf matches LayoutStrategy::Flat { allow_encodings: Some(ids) }
            &&& forall|id: ArrayId| #[trigger] ids@.contains(id) <==> encodings::allowed(features, id)
        }),
        s matches LayoutStrategy::Table { validity, fallback, field_writers } ==> forall|
            path: Seq<Seq<char>>,
        |
            !#[trigger] field_writers@.dom().contains(path),
{
    unconfigured_columns_are_chained(m, s);
    assert forall|path: Seq<Seq<char>>| true implies !#[trigger] s->field_writers@.dom().contains(
        path,
    ) by {
        rows_and_fields_are_as_configured(m, s, path);
    }
}

} // verus!
