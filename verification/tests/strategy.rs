use std::sync::Arc;

use vortex_core::compressor::ctx::SchemeId;
use vortex_core::file::encodings::{allowed_encodings, ArrayId, EncodingFeatures};
use vortex_core::file::field_map::{FieldMap, FieldPath};
use vortex_core::file::strategy::{
    BtrBlocksCompressorBuilder, CompressorPlugin, LayoutStrategy, RepartitionWriterOptions, Stat,
    WriteStrategyBuilder, ONE_MEG,
};

type Strategy = LayoutStrategy<&'static str, &'static str>;
type Builder = WriteStrategyBuilder<&'static str, &'static str>;

struct Chain {
    flat: Arc<Strategy>,
    support: Arc<Strategy>,
    data: &'static str,
    probe: Vec<&'static str>,
    stats: Option<Vec<Stat>>,
    block: usize,
}

fn excluded(c: &CompressorPlugin<&'static str>) -> Vec<&'static str> {
    match c {
        CompressorPlugin::BtrBlocks(b) => b.excluded.iter().map(|id| id.name).collect(),
        CompressorPlugin::Opaque(p) => vec![**p],
    }
}

/// Follows the chain of a column from its outermost step to its innermost.
fn follow(s: &Strategy) -> Chain {
    let LayoutStrategy::Repartition { child: zoned, options } = s else { panic!("repartition") };
    assert_eq!((options.block_size_minimum, options.canonicalize), (0, false));
    assert_eq!(options.block_size_target, None);
    let LayoutStrategy::Zoned { child: dict, zone_stats, block_size } = &**zoned else {
        panic!("zoned")
    };
    assert_eq!(*block_size, options.block_len_multiple);
    let LayoutStrategy::Dict { codes, values, fallback, probe } = &**dict else { panic!("dict") };
    assert!(Arc::ptr_eq(values, zone_stats));
    assert!(Arc::ptr_eq(codes, fallback));
    let LayoutStrategy::Repartition { child: compressing, options } = &**codes else {
        panic!("coalesce")
    };
    let expected = RepartitionWriterOptions {
        block_size_minimum: ONE_MEG,
        block_len_multiple: *block_size,
        block_size_target: Some(ONE_MEG),
        canonicalize: true,
    };
    assert_eq!(*options, expected);
    let LayoutStrategy::Compressing { child: buffered, compressor, stats } = &**compressing else {
        panic!("compress")
    };
    let LayoutStrategy::Buffered { child: chunked, buffer_size } = &**buffered else {
        panic!("buffer")
    };
    assert_eq!(*buffer_size, 2 * 1024 * 1024);
    let LayoutStrategy::Chunked { child: flat } = &**chunked else { panic!("chunk") };
    Chain {
        flat: Arc::clone(flat),
        support: Arc::clone(zone_stats),
        data: *excluded(compressor).last().unwrap(),
        probe: excluded(probe),
        stats: stats.as_ref().map(|s| s.to_vec()),
        block: *block_size,
    }
}

fn table(s: &Strategy) -> (&Strategy, &Strategy, &FieldMap<Arc<Strategy>>) {
    match s {
        LayoutStrategy::Table { validity, fallback, field_writers } => {
            (&**validity, &**fallback, field_writers)
        }
        _ => panic!("table"),
    }
}

#[test]
fn the_default_strategy_splits_columns() {
    let built = Builder::default().build();
    let (validity, fallback, writers) = table(&built);
    let chain = follow(fallback);
    assert_eq!(chain.block, 8192);
    assert_eq!(chain.data, "vortex.int.dict");
    assert!(chain.probe.is_empty());
    assert_eq!(chain.stats, None);
    let LayoutStrategy::Flat { allow_encodings: Some(ids) } = &*chain.flat else {
        panic!("flat")
    };
    assert!(ids.contains(&ArrayId::Fsst) && !ids.contains(&ArrayId::Zstd));
    let LayoutStrategy::Compressing { child, compressor, stats } = &*chain.support else {
        panic!("compress statistics")
    };
    assert!(Arc::ptr_eq(child, &chain.flat));
    assert!(excluded(compressor).is_empty());
    assert!(stats.is_none());
    let LayoutStrategy::Collect { child } = validity else { panic!("collect") };
    assert!(Arc::ptr_eq(child, &chain.support));
    assert!(writers.get(&FieldPath::from_name("a")).is_none());
}

#[test]
fn options_reach_the_chain() {
    let built = Builder::default()
        .with_row_block_size(100)
        .with_flat_strategy(Arc::new("inline"))
        .with_compressor("opaque")
        .with_compressing_stats(vec![Stat::Min, Stat::Max])
        .build();
    let (_, fallback, _) = table(&built);
    let chain = follow(fallback);
    assert_eq!(chain.block, 100);
    assert_eq!(chain.data, "opaque");
    assert_eq!(chain.probe, vec!["opaque"]);
    assert_eq!(chain.stats, Some(vec![Stat::Min, Stat::Max]));
    assert!(matches!(&*chain.flat, LayoutStrategy::Custom(l) if **l == "inline"));
    let LayoutStrategy::Compressing { compressor, .. } = &*chain.support else {
        panic!("compress statistics")
    };
    assert_eq!(excluded(compressor), vec!["opaque"]);
}

#[test]
fn a_btrblocks_builder_loses_dictionaries_of_integers_for_data_only() {
    let builder = BtrBlocksCompressorBuilder {
        excluded: vec![SchemeId { name: "vortex.string.fsst" }],
    };
    let built = Builder::default().with_btrblocks_builder(builder).build();
    let (_, fallback, _) = table(&built);
    let chain = follow(fallback);
    assert_eq!(chain.data, "vortex.int.dict");
    assert_eq!(chain.probe, vec!["vortex.string.fsst"]);
    let LayoutStrategy::Compressing { compressor, .. } = &*chain.support else {
        panic!("compress statistics")
    };
    assert_eq!(excluded(compressor), vec!["vortex.string.fsst"]);
}

#[test]
fn allowed_encodings_can_be_replaced() {
    let only = Arc::new(vec![ArrayId::Primitive]);
    let built = Builder::default().with_allow_encodings(Arc::clone(&only)).build();
    let (_, fallback, _) = table(&built);
    let chain = follow(fallback);
    let LayoutStrategy::Flat { allow_encodings: Some(ids) } = &*chain.flat else {
        panic!("flat")
    };
    assert!(Arc::ptr_eq(ids, &only));
}

#[test]
fn fields_get_their_own_compressor_unless_they_have_a_writer() {
    let own: Arc<Strategy> = Arc::new(LayoutStrategy::Custom(Arc::new("own")));
    let compressor = |name| CompressorPlugin::Opaque(Arc::new(name));
    let built = Builder::default()
        .with_field_writer(FieldPath::from_name("a"), Arc::clone(&own))
        .with_field_compressors(vec![
            (FieldPath::from_name("a"), compressor("for a")),
            (FieldPath::from_name("b"), compressor("first for b")),
            (FieldPath::from_name("b"), compressor("for b")),
        ])
        .build();
    let (_, fallback, writers) = table(&built);
    assert!(Arc::ptr_eq(writers.get(&FieldPath::from_name("a")).unwrap(), &own));
    let chain = follow(writers.get(&FieldPath::from_name("b")).unwrap());
    assert_eq!(chain.data, "for b");
    assert!(chain.probe.is_empty());
    assert!(Arc::ptr_eq(&chain.flat, &follow(fallback).flat));
    assert!(!writers.contains(&FieldPath::from_name("c")));
}

#[test]
fn field_maps_replace_and_keep() {
    let nested = FieldPath { names: vec!["a".to_string(), "b".to_string()] };
    let mut map: FieldMap<u8> = FieldMap::new();
    map.insert(FieldPath::from_name("a"), 1);
    map.insert(nested, 2);
    map.insert(FieldPath::from_name("a"), 3);
    map.insert_if_absent(FieldPath::from_name("a"), 4);
    map.insert_if_absent(FieldPath::from_name("z"), 5);
    assert_eq!(map.get(&FieldPath::from_name("a")), Some(&3));
    assert_eq!(map.get(&FieldPath::from_name("z")), Some(&5));
    assert!(!map.contains(&FieldPath::from_name("b")));
    assert_eq!(map.into_entries().len(), 3);
}

#[test]
fn encodings_are_switched_on_by_features() {
    let with = |unstable_encodings, zstd, experimental_patches| {
        allowed_encodings(EncodingFeatures { unstable_encodings, zstd, experimental_patches })
    };
    assert_eq!(with(false, false, false).len(), 31);
    assert_eq!(with(true, true, true).len(), 35);
    assert!(with(true, false, false).contains(&ArrayId::OnPair));
    assert!(!with(true, false, false).contains(&ArrayId::ZstdBuffers));
    assert!(with(false, true, false).contains(&ArrayId::Zstd));
    assert!(with(false, false, true).contains(&ArrayId::Patched));
}

#[test]
fn the_probe_can_be_replaced_for_every_column() {
    let compressor = |name| CompressorPlugin::Opaque(Arc::new(name));
    let built = Builder::default()
        .with_field_compressors(vec![(FieldPath::from_name("b"), compressor("for b"))])
        .with_probe_compressor(compressor("probe"))
        .build();
    let (_, fallback, writers) = table(&built);
    assert_eq!(follow(fallback).probe, vec!["probe"]);
    assert_eq!(follow(fallback).data, "vortex.int.dict");
    let chain = follow(writers.get(&FieldPath::from_name("b")).unwrap());
    assert_eq!(chain.probe, vec!["probe"]);
    assert_eq!(chain.data, "for b");
}
