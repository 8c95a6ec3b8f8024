use std::sync::Arc;

use vortex_core::arrow::array::{BinaryView, VarBinViewArray};
use vortex_core::bits::BitBuffer;
use vortex_core::compressor::ctx::{
    CompressorContext, GenerateStatsOptions, SchemeId, MAX_CASCADE,
};
use vortex_core::compressor::for_::{for_encode, FoRScheme};
use vortex_core::compressor::fsst_pretrained::{
    fsst_compress, has_natural_table, FSSTScheme, FSSTSchemeWithPretrained,
};
use vortex_core::compressor::scheme::{
    ArrayAndStats, ChildSelection, CompressionEstimate, DeferredEstimate, EstimateVerdict,
};
use vortex_core::compressor::zigzag::{zigzag_encode, ZigZagScheme};
use vortex_core::dtype::{DType, Nullability, PType};
use vortex_core::error::VortexError;
use vortex_core::file::encodings::ArrayId;
use vortex_core::primitive::{PrimitiveArray, PrimitiveBuffer};
use vortex_core::validity::Validity;

const SKIP: CompressionEstimate = CompressionEstimate::Verdict(EstimateVerdict::Skip);

fn ctx() -> CompressorContext<()> {
    CompressorContext::new()
}

fn array(buffer: PrimitiveBuffer) -> PrimitiveArray {
    PrimitiveArray { buffer, validity: Validity::NonNullable }
}

fn data(buffer: PrimitiveBuffer) -> ArrayAndStats {
    ArrayAndStats { array: array(buffer), options: GenerateStatsOptions::default() }
}

fn id(name: &'static str) -> SchemeId {
    SchemeId { name }
}

#[test]
fn a_fresh_context_allows_every_level() {
    assert_eq!(ctx().allowed_cascading(), 3);
    let c = ctx();
    assert!(!c.is_sample());
    assert!(!c.finished_cascading());
    assert_eq!(c.cascade_depth(), 0);
    assert_eq!(c.cascade_path(), "root");
    assert!(c.frozen_scheme().is_none());
    assert!(c.winner_observer().is_none());
    assert!(!c.merged_stats_options().count_distinct_values);
    assert_eq!(CompressorContext::<()>::default().cascade_depth(), 0);
}

#[test]
fn descent_records_the_scheme_and_drops_the_hints() {
    let observer = Arc::new(7u8);
    let c = CompressorContext::new()
        .with_sampling()
        .with_merged_stats_options(GenerateStatsOptions { count_distinct_values: true })
        .with_frozen_scheme(id("vortex.int.for"))
        .with_winner_observer(Arc::clone(&observer));
    assert_eq!(c.frozen_scheme().unwrap().name, "vortex.int.for");
    assert!(Arc::ptr_eq(c.winner_observer().unwrap(), &observer));
    let child = c.duplicate().descend_with_scheme(id("vortex.int.dict"), 1);
    assert!(child.is_sample());
    assert!(child.merged_stats_options().count_distinct_values);
    assert!(child.frozen_scheme().is_none());
    assert!(child.winner_observer().is_none());
    assert_eq!(child.cascade_history().len(), 1);
    assert_eq!(child.cascade_history()[0].0.name, "vortex.int.dict");
    assert_eq!(child.cascade_history()[0].1, 1);
    assert_eq!(c.cascade_depth(), 0);
}

#[test]
fn cascades_end_after_three_levels() {
    let mut c = ctx();
    for _ in 0..MAX_CASCADE {
        assert!(!c.finished_cascading());
        c = c.descend_with_scheme(id("a"), 0);
    }
    assert!(c.finished_cascading());
    assert_eq!(c.cascade_depth(), MAX_CASCADE);
    assert!(ctx().as_leaf().finished_cascading());
}

#[test]
fn cascade_paths_are_printed_from_the_root() {
    let c = ctx()
        .descend_with_scheme(vortex_core::compressor::ctx::root_scheme_id(), 2)
        .descend_with_scheme(id("vortex.int.dict"), 1)
        .descend_with_scheme(id("vortex.int.runend"), 10);
    assert_eq!(c.cascade_path(), "root[2] > vortex.int.dict[1] > vortex.int.runend[10]");
}

#[test]
fn for_skips_what_it_cannot_improve() {
    let estimate = |b: PrimitiveBuffer| FoRScheme.expected_compression_ratio(&data(b), &ctx());
    // The smallest value is zero already.
    assert_eq!(estimate(PrimitiveBuffer::U32(vec![0, 5, 9])), SKIP);
    // All values are the same.
    assert_eq!(estimate(PrimitiveBuffer::U32(vec![7, 7])), SKIP);
    // No values at all.
    assert_eq!(estimate(PrimitiveBuffer::U32(vec![])), SKIP);
    // Plain bit packing needs as few bits.
    assert_eq!(estimate(PrimitiveBuffer::U32(vec![1, 1000])), SKIP);
    // A distance would wrap around.
    assert_eq!(estimate(PrimitiveBuffer::I8(vec![-100, 100])), SKIP);
    let leaf = ctx().as_leaf();
    let worth = data(PrimitiveBuffer::U32(vec![1000, 1003]));
    assert_eq!(FoRScheme.expected_compression_ratio(&worth, &leaf), SKIP);
}

#[test]
fn for_estimates_the_width_of_the_span() {
    let ratio = |full_width: u32, compressed_width: u32| {
        CompressionEstimate::Verdict(EstimateVerdict::Ratio { full_width, compressed_width })
    };
    let estimate = |b: PrimitiveBuffer| FoRScheme.expected_compression_ratio(&data(b), &ctx());
    assert_eq!(estimate(PrimitiveBuffer::U32(vec![1000, 1003])), ratio(32, 2));
    assert_eq!(estimate(PrimitiveBuffer::I64(vec![-5, 10])), ratio(64, 4));
    assert_eq!(estimate(PrimitiveBuffer::I8(vec![-100, 27])), ratio(8, 7));
}

#[test]
fn for_ignores_nulls() {
    let nullable = ArrayAndStats {
        array: PrimitiveArray {
            buffer: PrimitiveBuffer::I32(vec![1000, 0, 1001]),
            validity: Validity::Array(BitBuffer::from_bools(&[true, false, true])),
        },
        options: GenerateStatsOptions::default(),
    };
    assert_eq!(
        FoRScheme.expected_compression_ratio(&nullable, &ctx()),
        CompressionEstimate::Verdict(EstimateVerdict::Ratio {
            full_width: 32,
            compressed_width: 1
        })
    );
    let encoded = for_encode(&nullable.array).unwrap();
    assert_eq!(encoded.reference, 1000);
    assert_eq!(encoded.encoded.buffer, PrimitiveBuffer::I32(vec![0, 0, 1]));
    let all_null = PrimitiveArray {
        buffer: PrimitiveBuffer::I32(vec![1]),
        validity: Validity::AllInvalid,
    };
    assert_eq!(for_encode(&all_null).unwrap_err(), VortexError::NoMinimum);
}

#[test]
fn for_distances_add_back_to_the_values() {
    let values: Vec<i8> = vec![-128, 127, 0, -1];
    let encoded = for_encode(&array(PrimitiveBuffer::I8(values.clone()))).unwrap();
    assert_eq!(encoded.reference, -128);
    match encoded.encoded.buffer {
        PrimitiveBuffer::I8(distances) => {
            assert_eq!(distances, vec![0, -1, -128, 127]);
            for (d, v) in distances.iter().zip(values) {
                assert_eq!(d.wrapping_add(-128), v);
            }
        }
        other => panic!("{other:?}"),
    }
}

#[test]
fn for_packs_distances_in_a_leaf_context() {
    let input = ArrayAndStats {
        array: array(PrimitiveBuffer::U16(vec![500, 503])),
        options: GenerateStatsOptions::default(),
    };
    let context =
        ctx().with_merged_stats_options(GenerateStatsOptions { count_distinct_values: true });
    let packed = FoRScheme
        .compress(&input, &context, |biased: ArrayAndStats, leaf: CompressorContext<()>| {
            assert!(leaf.finished_cascading());
            assert!(biased.options.count_distinct_values);
            Ok(biased.array.buffer)
        })
        .unwrap();
    assert_eq!(packed.reference, 500);
    assert_eq!(packed.encoded, PrimitiveBuffer::U16(vec![0, 3]));
    let failed = FoRScheme.compress(&input, &context, |_: ArrayAndStats, _| {
        Err::<(), VortexError>(VortexError::ValueCast)
    });
    assert_eq!(failed.unwrap_err(), VortexError::ValueCast);
}

#[test]
fn schemes_describe_themselves() {
    let int = DType::Primitive(PType::I16, Nullability::Nullable);
    let float = DType::Primitive(PType::F32, Nullability::Nullable);
    assert_eq!(FoRScheme.scheme_name(), "vortex.int.for");
    assert!(FoRScheme.matches(&int) && !FoRScheme.matches(&float));
    assert_eq!(ZigZagScheme.scheme_name(), "vortex.int.zigzag");
    assert!(ZigZagScheme.matches(&int) && !ZigZagScheme.matches(&float));
    assert_eq!(ZigZagScheme.num_children(), 1);
    assert_eq!(ZigZagScheme.produced_encodings(), vec![ArrayId::ZigZag]);
    for exclusions in [FoRScheme.ancestor_exclusions(), ZigZagScheme.ancestor_exclusions()] {
        let names: Vec<&str> = exclusions.iter().map(|e| e.ancestor.name).collect();
        assert_eq!(
            names,
            ["vortex.int.dict", "vortex.float.dict", "vortex.string.dict", "vortex.binary.dict"]
        );
        assert!(exclusions.iter().all(|e| e.children == ChildSelection::One(1)));
    }
    let below = ZigZagScheme.descendant_exclusions();
    let names: Vec<&str> = below.iter().map(|e| e.excluded.name).collect();
    assert_eq!(names, ["vortex.int.dict", "vortex.int.runend", "vortex.int.sparse"]);
    assert!(below.iter().all(|e| e.children == ChildSelection::All));
}

#[test]
fn zigzag_is_tried_on_negative_values_only() {
    let estimate = |b: PrimitiveBuffer| ZigZagScheme.expected_compression_ratio(&data(b), &ctx());
    let sample = CompressionEstimate::Deferred(DeferredEstimate::Sample);
    assert_eq!(estimate(PrimitiveBuffer::I32(vec![3, -1])), sample);
    assert_eq!(estimate(PrimitiveBuffer::I32(vec![3, 0])), SKIP);
    assert_eq!(estimate(PrimitiveBuffer::I32(vec![])), SKIP);
    let negative = data(PrimitiveBuffer::I32(vec![-1]));
    assert_eq!(ZigZagScheme.expected_compression_ratio(&negative, &ctx().as_leaf()), SKIP);
}

#[test]
fn zigzag_interleaves_signs() {
    let encoded = zigzag_encode(&array(PrimitiveBuffer::I8(vec![0, -1, 1, -2, 127, -128]))).unwrap();
    assert_eq!(encoded.encoded.buffer, PrimitiveBuffer::U8(vec![0, 1, 2, 3, 254, 255]));
    let encoded = zigzag_encode(&array(PrimitiveBuffer::I64(vec![i64::MIN]))).unwrap();
    assert_eq!(encoded.encoded.buffer, PrimitiveBuffer::U64(vec![u64::MAX]));
    let unsigned = zigzag_encode(&array(PrimitiveBuffer::U8(vec![1])));
    assert_eq!(unsigned.unwrap_err(), VortexError::ZigZagUnsigned);
}

#[test]
fn zigzag_hands_its_codes_down_as_child_zero() {
    let out = ZigZagScheme
        .compress(
            &data(PrimitiveBuffer::I16(vec![-3, 2])),
            &ctx(),
            |codes: PrimitiveArray, c: CompressorContext<()>, id: SchemeId, child: usize| {
                assert_eq!(id.name, "vortex.int.zigzag");
                assert_eq!(child, 0);
                assert_eq!(c.cascade_depth(), 0);
                Ok(codes.buffer)
            },
        )
        .unwrap();
    assert_eq!(out.encoded, PrimitiveBuffer::U16(vec![5, 4]));
}

fn strings(values: &[Option<&str>]) -> VarBinViewArray {
    let mut views = Vec::new();
    let mut buffer: Vec<u8> = Vec::new();
    for value in values {
        let bytes = value.unwrap_or("").as_bytes();
        let mut inline = [0u8; 12];
        if bytes.len() <= 12 {
            inline[..bytes.len()].copy_from_slice(bytes);
        } else {
            inline[..4].copy_from_slice(&bytes[..4]);
            inline[8..].copy_from_slice(&(buffer.len() as u32).to_le_bytes());
            buffer.extend_from_slice(bytes);
        }
        views.push(BinaryView { size: bytes.len() as u32, data: inline });
    }
    let validity = if values.iter().all(|v| v.is_some()) {
        Validity::NonNullable
    } else {
        let bits: Vec<bool> = values.iter().map(|v| v.is_some()).collect();
        Validity::Array(BitBuffer::from_bools(&bits))
    };
    VarBinViewArray { binary: false, views, buffers: vec![buffer], validity }
}

fn train(values: &[Option<&str>]) -> Arc<fsst::Compressor> {
    let lines: Vec<&[u8]> = values.iter().flatten().map(|s| s.as_bytes()).collect();
    Arc::new(fsst::Compressor::train(&lines))
}

#[test]
fn shares_scheme_id_with_default_fsst() {
    let lines: Vec<String> = (0..16).map(|i| format!("hello world {i}")).collect();
    let values: Vec<Option<&str>> = lines.iter().map(|s| Some(s.as_str())).collect();
    let pretrained = train(&values);
    let scheme = FSSTSchemeWithPretrained::new(Arc::clone(&pretrained));
    assert!(scheme.id().is(&FSSTScheme.id()));
    assert_eq!(scheme.scheme_name(), FSSTScheme.scheme_name());
    assert!(Arc::ptr_eq(scheme.compressor(), &pretrained));
    assert_eq!(scheme.num_children(), 2);
    assert!(scheme.matches(&DType::Utf8(Nullability::Nullable)));
    assert!(!scheme.matches(&DType::Binary(Nullability::Nullable)));
    assert_eq!(
        scheme.expected_compression_ratio(),
        CompressionEstimate::Deferred(DeferredEstimate::Sample)
    );
}

/// Compresses without compressing the children, and decodes every row.
fn roundtrip(values: &[Option<&str>], pretrained: Arc<fsst::Compressor>) -> Vec<Option<String>> {
    let scheme = FSSTSchemeWithPretrained::new(Arc::clone(&pretrained));
    let out = scheme
        .compress(
            &strings(values),
            &ctx(),
            |child: PrimitiveArray, _: CompressorContext<()>, id: SchemeId, n: usize| {
                assert_eq!(id.name, scheme.scheme_name());
                assert!(n < 2);
                Ok(child.buffer)
            },
        )
        .unwrap();
    let symbols: Vec<u64> = pretrained.symbol_table().iter().map(|s| s.to_u64()).collect();
    assert_eq!(out.symbols, symbols);
    assert_eq!(out.symbol_lengths, pretrained.symbol_lengths());
    let mut rows = Vec::new();
    for i in 0..values.len() {
        let start = out.codes_offsets.as_usize(i);
        let end = out.codes_offsets.as_usize(i + 1);
        let plain = pretrained.decompressor().decompress(&out.codes[start..end]);
        assert_eq!(plain.len(), out.uncompressed_lengths.as_usize(i));
        let valid = out.validity.is_valid(i);
        rows.push(if valid { Some(String::from_utf8(plain).unwrap()) } else { None });
    }
    rows
}

#[test]
fn pretrained_roundtrip_matches_input() {
    let lines: Vec<String> =
        (0..256).map(|i| format!("pretrained sample row {i:04} payload")).collect();
    let values: Vec<Option<&str>> = lines.iter().map(|s| Some(s.as_str())).collect();
    let decoded = roundtrip(&values, train(&values));
    for (row, line) in decoded.iter().zip(&lines) {
        assert_eq!(row.as_deref(), Some(line.as_str()));
    }
}

#[test]
fn a_table_trained_on_other_strings_loses_nothing() {
    let pretrained = train(&[Some("aaaaaaaabbbbbbbb"), Some("aaaaaaaacccccccc")]);
    let values = [Some("completely different"), None, Some(""), Some("é 🦀"), Some("aaaa")];
    let decoded = roundtrip(&values, pretrained);
    for (row, value) in decoded.iter().zip(&values) {
        assert_eq!(row.as_deref(), *value);
    }
}

#[test]
fn trained_tables_compress() {
    let values = vec![Some("repetition repetition repetition repetition"); 64];
    let compressed = fsst_compress(&strings(&values), &train(&values)).unwrap();
    assert!(compressed.codes.len() * 2 < 64 * 43);
    assert_eq!(compressed.codes_offsets.buffer.ptype(), PType::I32);
    assert_eq!(compressed.uncompressed_lengths.buffer, PrimitiveBuffer::I32(vec![43; 64]));
}

#[test]
fn children_are_narrowed_and_compressed_in_order() {
    let values = vec![Some("0123456789"); 40];
    let scheme = FSSTSchemeWithPretrained::new(train(&[]));
    let seen = std::cell::RefCell::new(Vec::new());
    let out = scheme.compress(
        &strings(&values),
        &ctx(),
        |child: PrimitiveArray, _: CompressorContext<()>, _, n: usize| {
            seen.borrow_mut().push((n, child.buffer.ptype()));
            if n == 0 {
                Ok(())
            } else {
                Err(VortexError::ValueCast)
            }
        },
    );
    assert_eq!(out.unwrap_err(), VortexError::ValueCast);
    // Without a single symbol every byte is escaped: 800 bytes of codes.
    assert_eq!(seen.into_inner(), vec![(0, PType::U8), (1, PType::U16)]);
}

#[test]
fn narrowing_picks_the_narrowest_type() {
    let narrow = |b: PrimitiveBuffer| array(b).narrow().buffer;
    assert_eq!(narrow(PrimitiveBuffer::I64(vec![0, 255])), PrimitiveBuffer::U8(vec![0, 255]));
    assert_eq!(narrow(PrimitiveBuffer::I64(vec![0, 256])), PrimitiveBuffer::U16(vec![0, 256]));
    assert_eq!(narrow(PrimitiveBuffer::I64(vec![-1, 127])), PrimitiveBuffer::I8(vec![-1, 127]));
    assert_eq!(narrow(PrimitiveBuffer::I64(vec![-1, 128])), PrimitiveBuffer::I16(vec![-1, 128]));
    let wide = vec![-1, 1 << 40];
    assert_eq!(narrow(PrimitiveBuffer::I64(wide.clone())), PrimitiveBuffer::I64(wide));
    assert_eq!(narrow(PrimitiveBuffer::I32(vec![])), PrimitiveBuffer::U8(vec![]));
}

#[test]
fn strings_beyond_32_bits_are_refused() {
    let long = VarBinViewArray {
        binary: false,
        views: vec![BinaryView { size: 1 << 31, data: [0; 12] }],
        buffers: vec![vec![0u8; 1 << 31]],
        validity: Validity::NonNullable,
    };
    let refused = fsst_compress(&long, &train(&[])).unwrap_err();
    assert_eq!(refused, VortexError::FsstLengthOverflow);
    assert_eq!(refused.message(), "string length must fit into i32");
}

#[test]
fn tables_with_too_long_a_symbol_are_refused() {
    let symbols = [fsst::Symbol::from_slice(b"abc\0\0\0\0\0")];
    let long = fsst::Compressor::rebuild_from(symbols, [9u8]);
    let values = strings(&[Some("abcabcab")]);
    let refused = fsst_compress(&values, &long).unwrap_err();
    assert_eq!(refused, VortexError::FsstSymbolTooLong);
    assert_eq!(refused.message(), "symbol length must be at most 8");
    let longest = [fsst::Symbol::from_slice(b"abcabcab")];
    let table = fsst::Compressor::rebuild_from(longest, [8u8]);
    assert_eq!(fsst_compress(&values, &table).unwrap().codes, vec![0]);
}

#[test]
fn symbols_are_as_long_as_their_bytes_in_trained_tables() {
    assert!(has_natural_table(&train(&[])));
    assert!(has_natural_table(&train(&[Some("repetition repetition a\0b\0b\0b")])));
    let rebuilt = |symbol: &[u8; 8], length: u8| {
        fsst::Compressor::rebuild_from([fsst::Symbol::from_slice(symbol)], [length])
    };
    assert!(has_natural_table(&rebuilt(b"abc\0\0\0\0\0", 3)));
    assert!(has_natural_table(&rebuilt(b"\0\0\0\0\0\0\0\0", 1)));
    assert!(!has_natural_table(&rebuilt(b"abc\0\0\0\0\0", 9)));
    assert!(!has_natural_table(&rebuilt(b"abc\0\0\0\0\0", 2)));
    assert!(!has_natural_table(&rebuilt(b"a\0\0\0\0\0\0\0", 2)));
}
