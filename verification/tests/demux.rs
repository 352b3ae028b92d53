use dovi_demux::dispatch::DoviReader;
use dovi_demux::nal::{DemuxError, FrameOrderEntry, NalExternals, NalRecord};
use dovi_demux::options::{CliOptions, ConversionMode};
use dovi_demux::writer::DoviWriter;

const MARKER: [u8; 4] = [0, 0, 0, 1];

fn no_ext() -> NalExternals {
    NalExternals { st2094_40: false, converted: None }
}

fn opts_plain() -> CliOptions {
    CliOptions { mode: None, discard_el: false, drop_hdr10plus: false }
}

fn rec(nal_type: u8, start: usize, end: usize, frame: u64) -> NalRecord {
    NalRecord { nal_type, start, end, decoded_frame_index: frame }
}

#[test]
fn layer_separation_bl_receives_other_units_in_order() {
    // other(1), EL(63), RPU(62), SEI(39) -- BL gets the type-1 and type-39
    // units, marker-prefixed, in order.
    let chunk: Vec<u8> = vec![10, 11, 12, 20, 21, 22, 30, 31, 32, 40, 41, 42];
    let nals = vec![
        rec(1, 0, 3, 0),
        rec(63, 3, 6, 0),
        rec(62, 6, 9, 0),
        rec(39, 9, 12, 0),
    ];
    let exts = vec![no_ext(), no_ext(), no_ext(), no_ext()];
    let mut reader = DoviReader::new(opts_plain());
    let mut writer = DoviWriter::new_per_layer(true, true, true);
    let dups = reader.write_nals(&chunk, &mut writer, &nals, &exts);
    assert!(dups.is_empty());

    let mut expected_bl = Vec::new();
    expected_bl.extend_from_slice(&MARKER);
    expected_bl.extend_from_slice(&[10, 11, 12]);
    expected_bl.extend_from_slice(&MARKER);
    expected_bl.extend_from_slice(&[40, 41, 42]);
    assert_eq!(writer.bl_data(), &expected_bl);

    // EL sink: the EL unit's bytes with the two-byte layer header stripped.
    let mut expected_el = Vec::new();
    expected_el.extend_from_slice(&MARKER);
    expected_el.extend_from_slice(&[22]);
    assert_eq!(writer.el_data(), &expected_el);

    // The RPU unit was buffered, header-stripped, not written yet.
    assert_eq!(reader.rpu_list().len(), 1);
    assert_eq!(reader.rpu_list()[0].data, vec![32]);
    assert_eq!(reader.rpu_list()[0].decoded_index, 0);
    assert!(writer.rpu_data().is_empty());
}

#[test]
fn duplicate_rpu_for_same_frame_is_discarded() {
    // Two consecutive RPU units for frame 5: only the first is buffered.
    let chunk: Vec<u8> = vec![1, 2, 3, 4, 5, 6];
    let nals = vec![rec(62, 0, 3, 5), rec(62, 3, 6, 5)];
    let exts = vec![no_ext(), no_ext()];
    let mut reader = DoviReader::new(opts_plain());
    let mut writer = DoviWriter::new_per_layer(false, false, true);
    let dups = reader.write_nals(&chunk, &mut writer, &nals, &exts);
    assert_eq!(dups, vec![5]);
    assert_eq!(reader.rpu_list().len(), 1);
    assert_eq!(reader.rpu_list()[0].data, vec![3]);
}

#[test]
fn duplicate_rpu_for_frame_zero_is_kept() {
    // The duplicate check only fires once a nonzero frame index has been
    // seen, so repeated RPUs for frame 0 pass through.
    let chunk: Vec<u8> = vec![1, 2, 3, 4, 5, 6];
    let nals = vec![rec(62, 0, 3, 0), rec(62, 3, 6, 0)];
    let exts = vec![no_ext(), no_ext()];
    let mut reader = DoviReader::new(opts_plain());
    let mut writer = DoviWriter::new_per_layer(false, false, true);
    let dups = reader.write_nals(&chunk, &mut writer, &nals, &exts);
    assert!(dups.is_empty());
    assert_eq!(reader.rpu_list().len(), 2);
}

#[test]
fn reorder_emits_rpus_in_presentation_order() {
    // Three buffered records; decoded 0 shows last, so emission order must
    // be the records buffered as 1, 2, 0.
    let chunk: Vec<u8> = vec![0, 0, 101, 0, 0, 102, 0, 0, 103];
    let nals = vec![rec(62, 0, 3, 1), rec(62, 3, 6, 2), rec(62, 6, 9, 3)];
    let exts = vec![no_ext(), no_ext(), no_ext()];
    let mut reader = DoviReader::new(opts_plain());
    let mut writer = DoviWriter::new_per_layer(false, false, true);
    reader.write_nals(&chunk, &mut writer, &nals, &exts);
    assert_eq!(reader.rpu_list().len(), 3);

    let frames = vec![
        FrameOrderEntry { decoded_number: 0, presentation_number: 2 },
        FrameOrderEntry { decoded_number: 1, presentation_number: 0 },
        FrameOrderEntry { decoded_number: 2, presentation_number: 1 },
    ];
    assert!(reader.flush_writer(&frames, &mut writer).is_ok());

    let mut expected = Vec::new();
    expected.extend_from_slice(&MARKER);
    expected.extend_from_slice(&[102]);
    expected.extend_from_slice(&MARKER);
    expected.extend_from_slice(&[103]);
    expected.extend_from_slice(&MARKER);
    expected.extend_from_slice(&[101]);
    assert_eq!(writer.rpu_data(), &expected);

    // Presentation numbers were reassigned to the new positions.
    for (idx, rpu) in reader.rpu_list().iter().enumerate() {
        assert_eq!(rpu.presentation_number, idx);
    }
}

#[test]
fn missing_frame_aborts_flush() {
    let chunk: Vec<u8> = vec![0, 0, 7];
    let nals = vec![rec(62, 0, 3, 1)];
    let exts = vec![no_ext()];
    let mut reader = DoviReader::new(opts_plain());
    let mut writer = DoviWriter::new_per_layer(false, false, true);
    reader.write_nals(&chunk, &mut writer, &nals, &exts);

    // One frame entry, but its decoded number does not match the record's
    // decoded index (0): fatal, and nothing is written.
    let frames = vec![FrameOrderEntry { decoded_number: 9, presentation_number: 0 }];
    let result = reader.flush_writer(&frames, &mut writer);
    assert_eq!(result, Err(DemuxError::MissingFrame { decoded_index: 0 }));
    assert!(writer.rpu_data().is_empty());
}

#[test]
fn empty_frame_list_aborts_flush() {
    let mut reader = DoviReader::new(opts_plain());
    let mut writer = DoviWriter::new_per_layer(false, false, true);
    let frames: Vec<FrameOrderEntry> = Vec::new();
    assert_eq!(reader.flush_writer(&frames, &mut writer), Err(DemuxError::NoFramesParsed));
}

#[test]
fn flush_without_rpu_sink_is_a_no_op() {
    let mut reader = DoviReader::new(opts_plain());
    let mut writer = DoviWriter::new_per_layer(true, true, false);
    let frames: Vec<FrameOrderEntry> = Vec::new();
    assert!(reader.flush_writer(&frames, &mut writer).is_ok());
}

#[test]
fn hdr10plus_sei_is_dropped_from_all_sinks() {
    let chunk: Vec<u8> = vec![1, 2, 3, 4, 5, 6];
    let nals = vec![rec(39, 0, 3, 0), rec(1, 3, 6, 0)];
    let exts = vec![
        NalExternals { st2094_40: true, converted: None },
        no_ext(),
    ];
    let opts = CliOptions { mode: None, discard_el: false, drop_hdr10plus: true };
    let mut reader = DoviReader::new(opts);
    let mut writer = DoviWriter::new_per_layer(true, true, true);
    reader.write_nals(&chunk, &mut writer, &nals, &exts);

    // Only the non-SEI unit reaches the BL sink; the classified SEI unit is
    // nowhere.
    let mut expected_bl = Vec::new();
    expected_bl.extend_from_slice(&MARKER);
    expected_bl.extend_from_slice(&[4, 5, 6]);
    assert_eq!(writer.bl_data(), &expected_bl);
    assert!(writer.el_data().is_empty());
    assert!(writer.rpu_data().is_empty());
    assert!(reader.rpu_list().is_empty());
}

#[test]
fn unclassified_sei_survives_the_hdr10plus_filter() {
    let chunk: Vec<u8> = vec![1, 2, 3];
    let nals = vec![rec(39, 0, 3, 0)];
    let exts = vec![no_ext()];
    let opts = CliOptions { mode: None, discard_el: false, drop_hdr10plus: true };
    let mut reader = DoviReader::new(opts);
    let mut writer = DoviWriter::new_per_layer(true, false, false);
    reader.write_nals(&chunk, &mut writer, &nals, &exts);
    let mut expected_bl = Vec::new();
    expected_bl.extend_from_slice(&MARKER);
    expected_bl.extend_from_slice(&[1, 2, 3]);
    assert_eq!(writer.bl_data(), &expected_bl);
}

#[test]
fn single_layer_sink_takes_every_surviving_unit() {
    let chunk: Vec<u8> = vec![10, 11, 12, 20, 21, 22, 30, 31, 32];
    let nals = vec![rec(1, 0, 3, 0), rec(63, 3, 6, 0), rec(62, 6, 9, 1)];
    let exts = vec![no_ext(), no_ext(), no_ext()];
    let mut reader = DoviReader::new(opts_plain());
    let mut writer = DoviWriter::new_single_layer();
    reader.write_nals(&chunk, &mut writer, &nals, &exts);

    let mut expected = Vec::new();
    for unit in [&[10u8, 11, 12], &[20, 21, 22], &[30, 31, 32]] {
        expected.extend_from_slice(&MARKER);
        expected.extend_from_slice(unit);
    }
    assert_eq!(writer.sl_data(), &expected);

    // No per-layer rule fired: nothing buffered, per-layer sinks untouched.
    assert!(reader.rpu_list().is_empty());
    assert!(writer.bl_data().is_empty());
    assert!(writer.el_data().is_empty());
    assert!(writer.rpu_data().is_empty());
}

#[test]
fn single_layer_discard_el_removes_only_el_units() {
    let chunk: Vec<u8> = vec![10, 11, 12, 20, 21, 22, 30, 31, 32];
    let nals = vec![rec(1, 0, 3, 0), rec(63, 3, 6, 0), rec(39, 6, 9, 0)];
    let exts = vec![no_ext(), no_ext(), no_ext()];
    let opts = CliOptions { mode: None, discard_el: true, drop_hdr10plus: false };
    let mut reader = DoviReader::new(opts);
    let mut writer = DoviWriter::new_single_layer();
    reader.write_nals(&chunk, &mut writer, &nals, &exts);

    let mut expected = Vec::new();
    expected.extend_from_slice(&MARKER);
    expected.extend_from_slice(&[10, 11, 12]);
    expected.extend_from_slice(&MARKER);
    expected.extend_from_slice(&[30, 31, 32]);
    assert_eq!(writer.sl_data(), &expected);
}

#[test]
fn converted_rpu_is_buffered_header_stripped() {
    let chunk: Vec<u8> = vec![0x7C, 0x01, 9];
    let nals = vec![rec(62, 0, 3, 1)];
    let exts = vec![NalExternals { st2094_40: false, converted: Some(vec![0x7C, 0x01, 5, 6]) }];
    let opts = CliOptions {
        mode: Some(ConversionMode::ToProfile81),
        discard_el: false,
        drop_hdr10plus: false,
    };
    let mut reader = DoviReader::new(opts);
    let mut writer = DoviWriter::new_per_layer(false, false, true);
    reader.write_nals(&chunk, &mut writer, &nals, &exts);
    assert_eq!(reader.rpu_list().len(), 1);
    assert_eq!(reader.rpu_list()[0].data, vec![5, 6]);
}

#[test]
fn converted_rpu_goes_to_el_sink_without_marker() {
    // With a conversion mode and only an EL sink, the converted payload is
    // written as-is: the converter's output already carries its own prefix.
    let chunk: Vec<u8> = vec![0x7C, 0x01, 9];
    let nals = vec![rec(62, 0, 3, 1)];
    let exts = vec![NalExternals { st2094_40: false, converted: Some(vec![0x7C, 0x01, 5, 6]) }];
    let opts = CliOptions {
        mode: Some(ConversionMode::ToMel),
        discard_el: false,
        drop_hdr10plus: false,
    };
    let mut reader = DoviReader::new(opts);
    let mut writer = DoviWriter::new_per_layer(false, true, false);
    reader.write_nals(&chunk, &mut writer, &nals, &exts);
    assert_eq!(writer.el_data(), &vec![0x7C, 0x01, 5, 6]);
}

#[test]
fn unconverted_rpu_goes_to_el_sink_with_marker() {
    let chunk: Vec<u8> = vec![0x7C, 0x01, 9];
    let nals = vec![rec(62, 0, 3, 1)];
    let exts = vec![no_ext()];
    let mut reader = DoviReader::new(opts_plain());
    let mut writer = DoviWriter::new_per_layer(false, true, false);
    reader.write_nals(&chunk, &mut writer, &nals, &exts);
    let mut expected = Vec::new();
    expected.extend_from_slice(&MARKER);
    expected.extend_from_slice(&[0x7C, 0x01, 9]);
    assert_eq!(writer.el_data(), &expected);
}

#[test]
fn converted_rpu_in_single_layer_replaces_original_bytes() {
    let chunk: Vec<u8> = vec![0x7C, 0x01, 9];
    let nals = vec![rec(62, 0, 3, 1)];
    let exts = vec![NalExternals { st2094_40: false, converted: Some(vec![0x7C, 0x01, 5, 6]) }];
    let opts = CliOptions {
        mode: Some(ConversionMode::Untouched),
        discard_el: false,
        drop_hdr10plus: false,
    };
    let mut reader = DoviReader::new(opts);
    let mut writer = DoviWriter::new_single_layer();
    reader.write_nals(&chunk, &mut writer, &nals, &exts);
    let mut expected = Vec::new();
    expected.extend_from_slice(&MARKER);
    expected.extend_from_slice(&[0x7C, 0x01, 5, 6]);
    assert_eq!(writer.sl_data(), &expected);
}

#[test]
fn stable_sort_keeps_buffer_order_on_tied_keys() {
    // Two records mapping to the same presentation number: the earlier
    // buffered one must be emitted first.
    let chunk: Vec<u8> = vec![0, 0, 51, 0, 0, 52];
    let nals = vec![rec(62, 0, 3, 1), rec(62, 3, 6, 2)];
    let exts = vec![no_ext(), no_ext()];
    let mut reader = DoviReader::new(opts_plain());
    let mut writer = DoviWriter::new_per_layer(false, false, true);
    reader.write_nals(&chunk, &mut writer, &nals, &exts);

    let frames = vec![
        FrameOrderEntry { decoded_number: 0, presentation_number: 7 },
        FrameOrderEntry { decoded_number: 1, presentation_number: 7 },
    ];
    assert!(reader.flush_writer(&frames, &mut writer).is_ok());
    let mut expected = Vec::new();
    expected.extend_from_slice(&MARKER);
    expected.extend_from_slice(&[51]);
    expected.extend_from_slice(&MARKER);
    expected.extend_from_slice(&[52]);
    assert_eq!(writer.rpu_data(), &expected);
}

#[test]
fn take_drains_a_sink_and_keeps_it_active() {
    let chunk: Vec<u8> = vec![1, 2, 3];
    let nals = vec![rec(1, 0, 3, 0)];
    let exts = vec![no_ext()];
    let mut reader = DoviReader::new(opts_plain());
    let mut writer = DoviWriter::new_per_layer(true, false, false);
    reader.write_nals(&chunk, &mut writer, &nals, &exts);
    let first = writer.take_bl();
    assert_eq!(first.len(), 7);
    assert!(writer.bl_data().is_empty());
    reader.write_nals(&chunk, &mut writer, &nals, &exts);
    assert_eq!(writer.bl_data().len(), 7);
}

#[test]
fn flush_with_no_buffered_records_writes_nothing() {
    let mut reader = DoviReader::new(opts_plain());
    let mut writer = DoviWriter::new_per_layer(false, false, true);
    let frames = vec![FrameOrderEntry { decoded_number: 0, presentation_number: 0 }];
    assert!(reader.flush_writer(&frames, &mut writer).is_ok());
    assert!(writer.rpu_data().is_empty());
}

#[test]
fn duplicate_rpu_needs_no_converted_payload() {
    // With a conversion mode set, a duplicate RPU unit is discarded before
    // the converter's output would be consulted, so none need be supplied.
    let chunk: Vec<u8> = vec![0x7C, 0x01, 9, 0x7C, 0x01, 8];
    let nals = vec![rec(62, 0, 3, 5), rec(62, 3, 6, 5)];
    let exts = vec![
        NalExternals { st2094_40: false, converted: Some(vec![0x7C, 0x01, 5, 6]) },
        no_ext(),
    ];
    let opts = CliOptions {
        mode: Some(ConversionMode::ToProfile81),
        discard_el: false,
        drop_hdr10plus: false,
    };
    let mut reader = DoviReader::new(opts);
    let mut writer = DoviWriter::new_per_layer(false, false, true);
    let dups = reader.write_nals(&chunk, &mut writer, &nals, &exts);
    assert_eq!(dups, vec![5]);
    assert_eq!(reader.rpu_list().len(), 1);
    assert_eq!(reader.rpu_list()[0].data, vec![5, 6]);
}
