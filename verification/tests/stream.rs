use dovi_demux::dispatch::DoviReader;
use dovi_demux::nal::NalExternals;
use dovi_demux::options::CliOptions;
use dovi_demux::splitter::{nals_fit, NalSplitter, CHUNK_SIZE};
use dovi_demux::writer::DoviWriter;

/// One synthetic NAL unit: three-byte start code, two header bytes encoding
/// the type, then a payload free of start-code patterns.
fn unit(nal_type: u8, payload_len: usize, fill: u8) -> Vec<u8> {
    let mut v = vec![0, 0, 1, nal_type << 1, 1];
    v.extend(std::iter::repeat(fill).take(payload_len));
    v
}

fn feed(
    splitter: &mut NalSplitter,
    reader: &mut DoviReader,
    writer: &mut DoviWriter,
    bytes: &Vec<u8>,
) {
    if let Some(sc) = splitter.push(bytes).unwrap() {
        assert!(nals_fit(&sc.chunk, &sc.nals));
        let exts: Vec<NalExternals> = sc
            .nals
            .iter()
            .map(|_| NalExternals { st2094_40: false, converted: None })
            .collect();
        reader.write_nals(&sc.chunk, writer, &sc.nals, &exts);
    }
}

/// Runs the whole pipeline over `data`, pulling `read_size` bytes per read
/// and accumulating short reads up to the chunk threshold, the way a
/// streamed source is consumed.
fn demux(data: &[u8], read_size: usize) -> (Vec<u8>, Vec<u8>) {
    let opts = CliOptions { mode: None, discard_el: false, drop_hdr10plus: false };
    let mut reader = DoviReader::new(opts);
    let mut writer = DoviWriter::new_per_layer(true, true, false);
    let mut splitter = NalSplitter::new();
    let mut acc: Vec<u8> = Vec::new();
    for piece in data.chunks(read_size) {
        acc.extend_from_slice(piece);
        if acc.len() >= CHUNK_SIZE {
            feed(&mut splitter, &mut reader, &mut writer, &acc);
            acc.clear();
        }
    }
    // The final partial read closes the stream.
    feed(&mut splitter, &mut reader, &mut writer, &acc);
    assert!(splitter.is_drained());
    (writer.take_bl(), writer.take_el())
}

fn sample_stream() -> Vec<u8> {
    let mut data = Vec::new();
    data.extend(unit(1, 40_000, 0xAA));
    data.extend(unit(63, 30_000, 0xBB));
    data.extend(unit(39, 25_000, 0xCC));
    data.extend(unit(62, 20_000, 0xDD));
    data.extend(unit(1, 60_000, 0xEE));
    data.extend(unit(63, 35_000, 0xF1));
    data.extend(unit(1, 45_000, 0xA5));
    data
}

#[test]
fn chunk_boundary_invariance_across_read_sizes() {
    let data = sample_stream();
    assert!(data.len() > 2 * CHUNK_SIZE);
    let baseline = demux(&data, data.len());
    for read_size in [1usize, 977, 9_999, CHUNK_SIZE - 1, CHUNK_SIZE, 131_072] {
        let got = demux(&data, read_size);
        assert_eq!(got.0, baseline.0, "BL differs at read size {read_size}");
        assert_eq!(got.1, baseline.1, "EL differs at read size {read_size}");
    }
}

#[test]
fn parser_splits_units_at_start_codes() {
    let mut data = Vec::new();
    data.extend(unit(1, 5, 0xAA));
    data.extend(unit(63, 6, 0xBB));
    let (bl, el) = demux(&data, data.len());

    let mut expected_bl = vec![0, 0, 0, 1, 1 << 1, 1];
    expected_bl.extend(std::iter::repeat(0xAA).take(5));
    assert_eq!(bl, expected_bl);

    // EL output: marker plus the unit with its two header bytes stripped.
    let mut expected_el = vec![0, 0, 0, 1];
    expected_el.extend(std::iter::repeat(0xBB).take(6));
    assert_eq!(el, expected_el);
}

#[test]
fn start_codes_too_close_are_rejected() {
    // Two start codes three bytes apart leave no room for a unit header.
    let data: Vec<u8> = vec![0, 0, 1, 0, 0, 1, 2, 3, 4, 5, 6];
    let mut splitter = NalSplitter::new();
    let r = splitter.push(&data);
    assert!(matches!(r, Err(dovi_demux::nal::DemuxError::DegenerateUnit)));
}
