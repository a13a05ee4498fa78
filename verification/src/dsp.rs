//! The sound-processing settings of the HTTP API: what a request to change
//! the equaliser, crossfeed, dithering, auto frequency response or
//! perceptual bass enhancement does to the player's settings, and which
//! DSP calls it makes, in order.
use vstd::prelude::*;

verus! {

/// One equaliser band.
#[derive(Debug, Clone, Copy, PartialEq, Eq, Structural)]
pub struct EqBand {
    pub cutoff: i32,
    pub q: i32,
    pub gain: i32,
}

/// One equaliser band of a request.
pub struct EqBandInput {
    pub cutoff: i32,
    pub q: i32,
    pub gain: i32,
}

/// `PUT /settings/eq`.
pub struct SetEqBody {
    pub enabled: Option<bool>,
    pub precut: Option<i32>,
    pub bands: Option<Vec<EqBandInput>>,
}

/// `PUT /settings/crossfeed` (the JSON field `type` is `crossfeed_type`).
pub struct SetCrossfeedBody {
    pub crossfeed_type: Option<i32>,
    pub direct_gain: Option<i32>,
    pub cross_gain: Option<i64>,
    pub hf_attenuation: Option<i64>,
    pub hf_cutoff: Option<i64>,
}

/// `PUT /settings/dithering`.
pub struct SetDitheringBody {
    pub enabled: bool,
}

/// `PUT /settings/afr`.
pub struct SetAfrBody {
    pub mode: i32,
}

/// `PUT /settings/pbe`.
pub struct SetPbeBody {
    pub mode: Option<i32>,
    pub precut: Option<i32>,
}

/// The player's sound-processing settings that the API changes.
pub struct DspSettings {
    pub eq_enabled: bool,
    pub eq_precut: u32,
    /// One setting per equaliser band of the player.
    pub eq_bands: Vec<EqBand>,
    pub crossfeed: i32,
    pub crossfeed_direct_gain: u32,
    pub crossfeed_cross_gain: u32,
    pub crossfeed_hf_attenuation: u32,
    pub crossfeed_hf_cutoff: u32,
    pub dithering_enabled: bool,
    pub afr_enabled: i32,
    pub pbe: i32,
    pub pbe_precut: i32,
}

/// A call into the player's DSP.
#[derive(Debug, Clone, Copy, PartialEq, Eq, Structural)]
pub enum DspCall {
    EqEnable(bool),
    SetEqPrecut(i32),
    SetEqCoefs(i32, EqBand),
    SetCrossfeedType(i32),
    SetCrossfeedDirectGain(i32),
    SetCrossfeedCrossParams(i64, i64, i64),
    DitherEnable(bool),
    AfrEnable(i32),
    PbeEnable(i32),
    PbePrecut(i32),
}

// ── Spec model ──────────────────────────────────────────────────────────────

/// A band of a request as a setting.
pub open spec fn band_of(b: EqBandInput) -> EqBand {
    EqBand { cutoff: b.cutoff, q: b.q, gain: b.gain }
}

/// The number of bands a request sets: those it gives, up to the player's.
pub open spec fn bands_set(given: nat, player: nat) -> nat {
    if given < player {
        given
    } else {
        player
    }
}

/// The calls of an equaliser request with the player having `nbands`
/// bands: enabling, precut, then each band it sets, in order.
pub open spec fn eq_calls(body: SetEqBody, nbands: nat) -> Seq<DspCall> {
    (match body.enabled {
        Some(e) => seq![DspCall::EqEnable(e)],
        None => Seq::<DspCall>::empty(),
    }) + (match body.precut {
        Some(p) => seq![DspCall::SetEqPrecut(p)],
        None => Seq::<DspCall>::empty(),
    }) + match body.bands {
        Some(bs) => Seq::new(
            bands_set(bs@.len(), nbands),
            |i: int| DspCall::SetEqCoefs(i as i32, band_of(bs@[i])),
        ),
        None => Seq::<DspCall>::empty(),
    }
}

/// The calls of a crossfeed request: type, direct gain, then the cross
/// parameters where any of them is given, the others taken from the
/// current settings.
pub open spec fn crossfeed_calls(body: SetCrossfeedBody, s: DspSettings) -> Seq<DspCall> {
    (match body.crossfeed_type {
        Some(t) => seq![DspCall::SetCrossfeedType(t)],
        None => Seq::<DspCall>::empty(),
    }) + (match body.direct_gain {
        Some(g) => seq![DspCall::SetCrossfeedDirectGain(g)],
        None => Seq::<DspCall>::empty(),
    }) + if body.cross_gain is Some || body.hf_attenuation is Some || body.hf_cutoff is Some {
        seq![
            DspCall::SetCrossfeedCrossParams(
                match body.cross_gain {
                    Some(v) => v,
                    None => s.crossfeed_cross_gain as i64,
                },
                match body.hf_attenuation {
                    Some(v) => v,
                    None => s.crossfeed_hf_attenuation as i64,
                },
                match body.hf_cutoff {
                    Some(v) => v,
                    None => s.crossfeed_hf_cutoff as i64,
                },
            ),
        ]
    } else {
        Seq::<DspCall>::empty()
    }
}

/// The settings other than the equaliser's are those of `b`.
pub open spec fn same_but_eq(a: DspSettings, b: DspSettings) -> bool {
    &&& a.crossfeed == b.crossfeed
    &&& a.crossfeed_direct_gain == b.crossfeed_direct_gain
    &&& a.crossfeed_cross_gain == b.crossfeed_cross_gain
    &&& a.crossfeed_hf_attenuation == b.crossfeed_hf_attenuation
    &&& a.crossfeed_hf_cutoff == b.crossfeed_hf_cutoff
    &&& a.dithering_enabled == b.dithering_enabled
    &&& a.afr_enabled == b.afr_enabled
    &&& a.pbe == b.pbe
    &&& a.pbe_precut == b.pbe_precut
}

/// The settings other than the crossfeed's are those of `b`.
pub open spec fn same_but_crossfeed(a: DspSettings, b: DspSettings) -> bool {
    &&& a.eq_enabled == b.eq_enabled
    &&& a.eq_precut == b.eq_precut
    &&& a.eq_bands@ == b.eq_bands@
    &&& a.dithering_enabled == b.dithering_enabled
    &&& a.afr_enabled == b.afr_enabled
    &&& a.pbe == b.pbe
    &&& a.pbe_precut == b.pbe_precut
}

/// The settings other than dithering, AFR and PBE are those of `b`.
pub open spec fn same_but_effects(a: DspSettings, b: DspSettings) -> bool {
    &&& a.eq_enabled == b.eq_enabled
    &&& a.eq_precut == b.eq_precut
    &&& a.eq_bands@ == b.eq_bands@
    &&& a.crossfeed == b.crossfeed
    &&& a.crossfeed_direct_gain == b.crossfeed_direct_gain
    &&& a.crossfeed_cross_gain == b.crossfeed_cross_gain
    &&& a.crossfeed_hf_attenuation == b.crossfeed_hf_attenuation
    &&& a.crossfeed_hf_cutoff == b.crossfeed_hf_cutoff
}

// ── Requests ────────────────────────────────────────────────────────────────

/// Applies an equaliser request: stores what it gives (the precut as
/// unsigned, each band up to the player's number of bands) and returns the
/// DSP calls to make, in order.
pub fn apply_eq(settings: &mut DspSettings, body: &SetEqBody) -> (res: Vec<DspCall>)
    requires
        old(settings).eq_bands@.len() <= i32::MAX,
    ensures
        res@ == eq_calls(*body, old(settings).eq_bands@.len()),
        final(settings).eq_enabled == match body.enabled {
            Some(e) => e,
            None => old(settings).eq_enabled,
        },
        final(settings).eq_precut == match body.precut {
            Some(p) => p as u32,
            None => old(settings).eq_precut,
        },
        final(settings).eq_bands@.len() == old(settings).eq_bands@.len(),
        forall|i: int|
            0 <= i < final(settings).eq_bands@.len() ==> #[trigger] final(settings).eq_bands@[i] == match body.bands {
                Some(bs) => if i < bs@.len() {
                    band_of(bs@[i])
                } else {
                    old(settings).eq_bands@[i]
                },
                None => old(settings).eq_bands@[i],
            },
        same_but_eq(*final(settings), *old(settings)),
{
    let mut calls: Vec<DspCall> = Vec::new();
    if let Some(e) = body.enabled {
        settings.eq_enabled = e;
        calls.push(DspCall::EqEnable(e));
    }
    if let Some(p) = body.precut {
        settings.eq_precut = p as u32;
        calls.push(DspCall::SetEqPrecut(p));
    }
    let ghost head = calls@;
    let ghost old_bands = settings.eq_bands@;
    match &body.bands {
        Some(bs) => {
            let mut i: usize = 0;
            let n = settings.eq_bands.len();
            while i < bs.len() && i < n
                invariant
                    i <= bs@.len(),
                    i <= n,
                    n == settings.eq_bands@.len(),
                    n == old_bands.len(),
                    n <= i32::MAX,
                    calls@ == head + Seq::new(
                        i as nat,
                        |j: int| DspCall::SetEqCoefs(j as i32, band_of(bs@[j])),
                    ),
                    forall|j: int|
                        0 <= j < n ==> #[trigger] settings.eq_bands@[j] == if j < i {
                            band_of(bs@[j])
                        } else {
                            old_bands[j]
                        },
                    same_but_eq(*settings, *old(settings)),
                    settings.eq_enabled == match body.enabled {
                        Some(e) => e,
                        None => old(settings).eq_enabled,
                    },
                    settings.eq_precut == match body.precut {
                        Some(p) => p as u32,
                        None => old(settings).eq_precut,
                    },
                decreases bs.len() - i,
            {
                let b = &bs[i];
                let setting = EqBand { cutoff: b.cutoff, q: b.q, gain: b.gain };
                settings.eq_bands.set(i, setting);
                let ghost before = calls@;
                calls.push(DspCall::SetEqCoefs(i as i32, setting));
                assert(calls@ =~= head + Seq::new(
                    (i + 1) as nat,
                    |j: int| DspCall::SetEqCoefs(j as i32, band_of(bs@[j])),
                ));
                i += 1;
            }
            assert(i as nat == bands_set(bs@.len(), n as nat));
        },
        None => {
            assert(calls@ =~= head + Seq::<DspCall>::empty());
        },
    }
    calls
}

/// Applies a crossfeed request: stores what it gives (gains and
/// attenuation as unsigned) and returns the DSP calls to make, in order.
pub fn apply_crossfeed(settings: &mut DspSettings, body: &SetCrossfeedBody) -> (res: Vec<DspCall>)
    ensures
        res@ == crossfeed_calls(*body, *old(settings)),
        final(settings).crossfeed == match body.crossfeed_type {
            Some(t) => t,
            None => old(settings).crossfeed,
        },
        final(settings).crossfeed_direct_gain == match body.direct_gain {
            Some(g) => g as u32,
            None => old(settings).crossfeed_direct_gain,
        },
        final(settings).crossfeed_cross_gain == match body.cross_gain {
            Some(v) => v as u32,
            None => old(settings).crossfeed_cross_gain,
        },
        final(settings).crossfeed_hf_attenuation == match body.hf_attenuation {
            Some(v) => v as u32,
            None => old(settings).crossfeed_hf_attenuation,
        },
        final(settings).crossfeed_hf_cutoff == match body.hf_cutoff {
            Some(v) => v as u32,
            None => old(settings).crossfeed_hf_cutoff,
        },
        same_but_crossfeed(*final(settings), *old(settings)),
{
    let mut calls: Vec<DspCall> = Vec::new();
    if let Some(t) = body.crossfeed_type {
        settings.crossfeed = t;
        calls.push(DspCall::SetCrossfeedType(t));
    }
    if let Some(g) = body.direct_gain {
        settings.crossfeed_direct_gain = g as u32;
        calls.push(DspCall::SetCrossfeedDirectGain(g));
    }
    if body.cross_gain.is_some() || body.hf_attenuation.is_some() || body.hf_cutoff.is_some() {
        let cross_gain = match body.cross_gain {
            Some(v) => v,
            None => settings.crossfeed_cross_gain as i64,
        };
        let hf_att = match body.hf_attenuation {
            Some(v) => v,
            None => settings.crossfeed_hf_attenuation as i64,
        };
        let hf_cut = match body.hf_cutoff {
            Some(v) => v,
            None => settings.crossfeed_hf_cutoff as i64,
        };
        if let Some(v) = body.cross_gain {
            settings.crossfeed_cross_gain = v as u32;
        }
        if let Some(v) = body.hf_attenuation {
            settings.crossfeed_hf_attenuation = v as u32;
        }
        if let Some(v) = body.hf_cutoff {
            settings.crossfeed_hf_cutoff = v as u32;
        }
        calls.push(DspCall::SetCrossfeedCrossParams(cross_gain, hf_att, hf_cut));
    }
    assert(calls@ =~= crossfeed_calls(*body, *old(settings)));
    calls
}

/// Applies a dithering request.
pub fn apply_dithering(settings: &mut DspSettings, body: &SetDitheringBody) -> (res: Vec<DspCall>)
    ensures
        res@ == seq![DspCall::DitherEnable(body.enabled)],
        final(settings).dithering_enabled == body.enabled,
        final(settings).afr_enabled == old(settings).afr_enabled,
        final(settings).pbe == old(settings).pbe,
        final(settings).pbe_precut == old(settings).pbe_precut,
        same_but_effects(*final(settings), *old(settings)),
{
    settings.dithering_enabled = body.enabled;
    let mut calls: Vec<DspCall> = Vec::new();
    calls.push(DspCall::DitherEnable(body.enabled));
    calls
}

/// Applies an auto-frequency-response request.
pub fn apply_afr(settings: &mut DspSettings, body: &SetAfrBody) -> (res: Vec<DspCall>)
    ensures
        res@ == seq![DspCall::AfrEnable(body.mode)],
        final(settings).afr_enabled == body.mode,
        final(settings).dithering_enabled == old(settings).dithering_enabled,
        final(settings).pbe == old(settings).pbe,
        final(settings).pbe_precut == old(settings).pbe_precut,
        same_but_effects(*final(settings), *old(settings)),
{
    settings.afr_enabled = body.mode;
    let mut calls: Vec<DspCall> = Vec::new();
    calls.push(DspCall::AfrEnable(body.mode));
    calls
}

/// Applies a perceptual-bass-enhancement request: mode, then precut.
pub fn apply_pbe(settings: &mut DspSettings, body: &SetPbeBody) -> (res: Vec<DspCall>)
    ensures
        res@ == (match body.mode {
            Some(m) => seq![DspCall::PbeEnable(m)],
            None => Seq::<DspCall>::empty(),
        }) + match body.precut {
            Some(p) => seq![DspCall::PbePrecut(p)],
            None => Seq::<DspCall>::empty(),
        },
        final(settings).pbe == match body.mode {
            Some(m) => m,
            None => old(settings).pbe,
        },
        final(settings).pbe_precut == match body.precut {
            Some(p) => p,
            None => old(settings).pbe_precut,
        },
        final(settings).dithering_enabled == old(settings).dithering_enabled,
        final(settings).afr_enabled == old(settings).afr_enabled,
        same_but_effects(*final(settings), *old(settings)),
{
    let mut calls: Vec<DspCall> = Vec::new();
    if let Some(m) = body.mode {
        settings.pbe = m;
        calls.push(DspCall::PbeEnable(m));
    }
    if let Some(p) = body.precut {
        settings.pbe_precut = p;
        calls.push(DspCall::PbePrecut(p));
    }
    assert(calls@ =~= (match body.mode {
        Some(m) => seq![DspCall::PbeEnable(m)],
        None => Seq::<DspCall>::empty(),
    }) + match body.precut {
        Some(p) => seq![DspCall::PbePrecut(p)],
        None => Seq::<DspCall>::empty(),
    });
    calls
}

} // verus!
