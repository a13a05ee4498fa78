use rockboxd::dsp::{
    apply_afr, apply_crossfeed, apply_dithering, apply_eq, apply_pbe, DspCall, DspSettings,
    EqBand, EqBandInput, SetAfrBody, SetCrossfeedBody, SetDitheringBody, SetEqBody, SetPbeBody,
};

fn settings(bands: usize) -> DspSettings {
    DspSettings {
        eq_enabled: false,
        eq_precut: 0,
        eq_bands: vec![EqBand { cutoff: 0, q: 0, gain: 0 }; bands],
        crossfeed: 0,
        crossfeed_direct_gain: 1,
        crossfeed_cross_gain: 2,
        crossfeed_hf_attenuation: 3,
        crossfeed_hf_cutoff: 4,
        dithering_enabled: false,
        afr_enabled: 0,
        pbe: 0,
        pbe_precut: 0,
    }
}

fn band(c: i32) -> EqBandInput {
    EqBandInput { cutoff: c, q: 7, gain: -2 }
}

#[test]
fn equaliser_sets_at_most_the_player_bands() {
    let mut s = settings(2);
    let calls = apply_eq(
        &mut s,
        &SetEqBody { enabled: Some(true), precut: Some(-1), bands: Some(vec![band(60), band(200), band(800)]) },
    );
    assert_eq!(
        calls,
        vec![
            DspCall::EqEnable(true),
            DspCall::SetEqPrecut(-1),
            DspCall::SetEqCoefs(0, EqBand { cutoff: 60, q: 7, gain: -2 }),
            DspCall::SetEqCoefs(1, EqBand { cutoff: 200, q: 7, gain: -2 }),
        ]
    );
    assert!(s.eq_enabled);
    assert_eq!(s.eq_precut, u32::MAX);
    assert_eq!(s.eq_bands[1], EqBand { cutoff: 200, q: 7, gain: -2 });
    let mut t = settings(3);
    assert!(apply_eq(&mut t, &SetEqBody { enabled: None, precut: None, bands: None }).is_empty());
}

#[test]
fn crossfeed_fills_missing_cross_parameters() {
    let mut s = settings(0);
    let calls = apply_crossfeed(
        &mut s,
        &SetCrossfeedBody { crossfeed_type: Some(1), direct_gain: None, cross_gain: Some(60), hf_attenuation: None, hf_cutoff: None },
    );
    assert_eq!(calls, vec![DspCall::SetCrossfeedType(1), DspCall::SetCrossfeedCrossParams(60, 3, 4)]);
    assert_eq!((s.crossfeed, s.crossfeed_cross_gain, s.crossfeed_hf_attenuation), (1, 60, 3));
    let none = apply_crossfeed(
        &mut s,
        &SetCrossfeedBody { crossfeed_type: None, direct_gain: Some(5), cross_gain: None, hf_attenuation: None, hf_cutoff: None },
    );
    assert_eq!(none, vec![DspCall::SetCrossfeedDirectGain(5)]);
}

#[test]
fn effects() {
    let mut s = settings(0);
    assert_eq!(apply_dithering(&mut s, &SetDitheringBody { enabled: true }), vec![DspCall::DitherEnable(true)]);
    assert!(s.dithering_enabled);
    assert_eq!(apply_afr(&mut s, &SetAfrBody { mode: 2 }), vec![DspCall::AfrEnable(2)]);
    assert_eq!(s.afr_enabled, 2);
    assert_eq!(
        apply_pbe(&mut s, &SetPbeBody { mode: Some(1), precut: Some(-3) }),
        vec![DspCall::PbeEnable(1), DspCall::PbePrecut(-3)]
    );
    assert_eq!((s.pbe, s.pbe_precut), (1, -3));
}
