use viewport_vulkan::color::{
    description_in, luminance_scale, Chromaticity, Description, LuminanceScale, Primaries, Quotients,
    TransferFunction,
};

#[test]
fn transfer_codes_are_distinct() {
    // The shader switches on these, so a collision would silently apply the
    // wrong curve.
    let codes: Vec<u32> = [
        TransferFunction::Linear,
        TransferFunction::Srgb,
        TransferFunction::Gamma22,
        TransferFunction::Gamma28,
        TransferFunction::Pq,
        TransferFunction::Hlg,
    ]
    .into_iter()
    .map(TransferFunction::as_code)
    .collect();
    let mut sorted = codes.clone();
    sorted.sort_unstable();
    sorted.dedup();
    assert_eq!(sorted.len(), codes.len(), "duplicate transfer codes");
}

/// The scale as it is computed: the two reference whites and the PQ peak.
fn scale(from: Description, to: Description) -> f32 {
    let reference = f32::from_bits(from.reference_luminance);
    let target = f32::from_bits(to.reference_luminance);
    let quotients = Quotients {
        reference_over_reference: (reference / target).to_bits(),
        reference_over_peak: (reference / 10000.0).to_bits(),
        peak_over_reference: (10000.0 / target).to_bits(),
    };
    f32::from_bits(quotients.scale(from.transfer, to.transfer))
}

#[test]
fn hdr_content_on_an_sdr_screen_is_not_multiplied_by_ten_thousand() {
    // PQ's 1.0 is 10,000 nits and an SDR screen's is 203, so the same value has
    // to come back down.
    let hdr = Description {
        transfer: TransferFunction::Pq,
        primaries: Primaries::bt2020(),
        reference_luminance: 203.0f32.to_bits(),
    };
    assert_eq!(scale(hdr, Description::default()), 10_000.0 / 203.0);
}

#[test]
fn two_relative_descriptions_only_compare_their_reference_whites() {
    let dim = Description {
        reference_luminance: 100.0f32.to_bits(),
        ..Description::default()
    };
    let bright = Description::default();
    assert!((scale(dim, bright) - 100.0 / 203.0).abs() < 1e-6);
    assert_eq!(scale(bright, bright), 1.0);
}

#[test]
fn relative_and_absolute_curves_are_scaled_against_each_other() {
    let sdr = Description::default();
    let pq = Description {
        transfer: TransferFunction::Pq,
        ..sdr
    };
    let dim = Description {
        reference_luminance: 100.0f32.to_bits(),
        ..sdr
    };
    assert_eq!(scale(sdr, pq), 203.0 / 10000.0);
    assert_eq!(scale(pq, sdr), 10000.0 / 203.0);
    assert_eq!(scale(dim, pq), 100.0 / 10000.0);
    assert_eq!(scale(sdr, sdr), 1.0);
    assert_eq!(scale(pq, pq), 1.0);
    assert_eq!(
        luminance_scale(TransferFunction::Hlg, TransferFunction::Pq),
        LuminanceScale::ReferenceOverPeak
    );
    assert_eq!(
        luminance_scale(TransferFunction::Pq, TransferFunction::Linear),
        LuminanceScale::PeakOverReference
    );
    assert!(TransferFunction::Pq.is_absolute());
    assert!(!TransferFunction::Hlg.is_absolute());
}

#[test]
fn a_buffer_is_sdr_where_the_client_says_nothing() {
    let sdr = Description::default();
    assert_eq!(sdr.transfer, TransferFunction::Srgb);
    assert_eq!(TransferFunction::default(), TransferFunction::Srgb);
    assert_eq!(sdr.primaries, Primaries::srgb());
    assert_eq!(sdr.reference_luminance, 203.0f32.to_bits());
}

#[test]
fn colour_spaces_have_the_chromaticities_they_are_defined_by() {
    let pair = |c: Chromaticity| (f32::from_bits(c.x), f32::from_bits(c.y));
    let d65 = (0.3127, 0.3290);
    for (space, red, green, blue) in [
        (Primaries::srgb(), (0.640, 0.330), (0.300, 0.600), (0.150, 0.060)),
        (Primaries::bt2020(), (0.708, 0.292), (0.170, 0.797), (0.131, 0.046)),
        (Primaries::display_p3(), (0.680, 0.320), (0.265, 0.690), (0.150, 0.060)),
        (Primaries::adobe_rgb(), (0.640, 0.330), (0.210, 0.710), (0.150, 0.060)),
    ] {
        assert_eq!(pair(space.red), red);
        assert_eq!(pair(space.green), green);
        assert_eq!(pair(space.blue), blue);
        assert_eq!(pair(space.white), d65);
    }
}

#[test]
fn a_surface_that_says_nothing_is_srgb() {
    assert_eq!(description_in(None), Description::default());
    let hdr = Description {
        transfer: TransferFunction::Pq,
        primaries: Primaries::bt2020(),
        reference_luminance: 100.0f32.to_bits(),
    };
    assert_eq!(description_in(Some(hdr)), hdr);
}
