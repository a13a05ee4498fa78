//! Audio-output routing: which sink the player sends its audio to, and the
//! firmware calls that set it up, from the saved settings at startup and
//! when the user connects to (or disconnects from) an output device. The
//! decisions are made here; the calls are made by the caller, in the order
//! given.
use vstd::prelude::*;
use vstd::utf8::encode_utf8;

use crate::codec::hex_lower;
use crate::outside::md5_of;
use crate::text::chars_eq;
use crate::text::chars_of;
use crate::text::opt_chars;
use crate::text::string_of;

verus! {

/// The port of an AirPlay receiver that names none.
pub const AIRPLAY_PORT: u16 = 5000;

/// The Slim Protocol port of the squeezelite sink by default.
pub const SQUEEZELITE_PORT: u16 = 3483;

/// The HTTP audio port of the squeezelite sink by default.
pub const SQUEEZELITE_HTTP_PORT: u16 = 9999;

/// The WAV-stream port of the UPnP sink by default.
pub const UPNP_HTTP_PORT: u16 = 7879;

/// The WAV-stream port of the Chromecast sink by default.
pub const CHROMECAST_HTTP_PORT: u16 = 7881;

/// The Cast port of a Chromecast device by default.
pub const CHROMECAST_PORT: u16 = 8009;

/// The port of a Snapcast TCP server by default.
pub const SNAPCAST_TCP_PORT: u16 = 4953;

/// The segment port of the CMAF sink by default.
pub const CMAF_HTTP_PORT: u16 = 7882;

/// The bit rate of the CMAF sink by default.
pub const CMAF_BITRATE: u32 = 128000;

/// Where the player sends its audio.
#[derive(Debug, Clone, Copy, PartialEq, Eq, Structural)]
pub enum Sink {
    Builtin,
    Fifo,
    Airplay,
    Squeezelite,
    Upnp,
    Chromecast,
    SnapcastTcp,
    Cmaf,
}

/// One AirPlay receiver of a multi-room list.
pub struct AirplayReceiver {
    pub host: String,
    pub port: Option<u16>,
}

/// The settings that decide the audio output.
pub struct OutputSettings {
    /// `builtin`, `fifo`, `airplay`, `squeezelite`, `upnp`, `chromecast`,
    /// `snapcast_tcp` or `cmaf`; none is the built-in output.
    pub audio_output: Option<String>,
    pub fifo_path: Option<String>,
    pub airplay_receivers: Option<Vec<AirplayReceiver>>,
    pub airplay_host: Option<String>,
    pub airplay_port: Option<u16>,
    pub squeezelite_port: Option<u16>,
    pub squeezelite_http_port: Option<u16>,
    pub upnp_http_port: Option<u16>,
    pub upnp_renderer_url: Option<String>,
    pub chromecast_http_port: Option<u16>,
    pub chromecast_host: Option<String>,
    pub chromecast_port: Option<u16>,
    pub snapcast_tcp_host: Option<String>,
    pub snapcast_tcp_port: Option<u16>,
    pub cmaf_http_port: Option<u16>,
    pub cmaf_bitrate: Option<u32>,
    pub cmaf_segment_dir: Option<String>,
}

/// The settings as plain values.
pub struct SettingsModel {
    pub audio_output: Option<Seq<char>>,
    pub fifo_path: Option<Seq<char>>,
    pub airplay_receivers: Option<Seq<(Seq<char>, Option<u16>)>>,
    pub airplay_host: Option<Seq<char>>,
    pub airplay_port: Option<u16>,
    pub squeezelite_port: Option<u16>,
    pub squeezelite_http_port: Option<u16>,
    pub upnp_http_port: Option<u16>,
    pub upnp_renderer_url: Option<Seq<char>>,
    pub chromecast_http_port: Option<u16>,
    pub chromecast_host: Option<Seq<char>>,
    pub chromecast_port: Option<u16>,
    pub snapcast_tcp_host: Option<Seq<char>>,
    pub snapcast_tcp_port: Option<u16>,
    pub cmaf_http_port: Option<u16>,
    pub cmaf_bitrate: Option<u32>,
    pub cmaf_segment_dir: Option<Seq<char>>,
}

/// A receiver as its host and port.
pub open spec fn receiver_view(r: AirplayReceiver) -> (Seq<char>, Option<u16>) {
    (r.host@, r.port)
}

impl View for OutputSettings {
    type V = SettingsModel;

    open spec fn view(&self) -> SettingsModel {
        SettingsModel {
            audio_output: opt_chars(self.audio_output),
            fifo_path: opt_chars(self.fifo_path),
            airplay_receivers: match self.airplay_receivers {
                Some(v) => Some(v@.map_values(|r: AirplayReceiver| receiver_view(r))),
                None => None,
            },
            airplay_host: opt_chars(self.airplay_host),
            airplay_port: self.airplay_port,
            squeezelite_port: self.squeezelite_port,
            squeezelite_http_port: self.squeezelite_http_port,
            upnp_http_port: self.upnp_http_port,
            upnp_renderer_url: opt_chars(self.upnp_renderer_url),
            chromecast_http_port: self.chromecast_http_port,
            chromecast_host: opt_chars(self.chromecast_host),
            chromecast_port: self.chromecast_port,
            snapcast_tcp_host: opt_chars(self.snapcast_tcp_host),
            snapcast_tcp_port: self.snapcast_tcp_port,
            cmaf_http_port: self.cmaf_http_port,
            cmaf_bitrate: self.cmaf_bitrate,
            cmaf_segment_dir: opt_chars(self.cmaf_segment_dir),
        }
    }
}

/// A firmware call that sets the audio output up.
pub enum OutputStep {
    FifoSetPath(String),
    AirplayClearReceivers,
    AirplayAddReceiver(String, u16),
    AirplaySetHost(String, u16),
    SqueezeliteSetSlimPort(u16),
    SqueezeliteSetHttpPort(u16),
    UpnpSetHttpPort(u16),
    UpnpSetRendererUrl(String),
    UpnpClearRendererUrl,
    UpnpResetRenderer,
    ChromecastSetHttpPort(u16),
    ChromecastSetDeviceHost(String),
    ChromecastSetDevicePort(u16),
    TcpSetHost(String),
    TcpSetPort(u16),
    CmafSetHttpPort(u16),
    CmafSetBitrate(u32),
    CmafSetSegmentDir(Option<String>),
    SwitchSink(Sink),
}

/// A firmware call as plain values.
pub enum StepModel {
    FifoSetPath(Seq<char>),
    AirplayClearReceivers,
    AirplayAddReceiver(Seq<char>, u16),
    AirplaySetHost(Seq<char>, u16),
    SqueezeliteSetSlimPort(u16),
    SqueezeliteSetHttpPort(u16),
    UpnpSetHttpPort(u16),
    UpnpSetRendererUrl(Seq<char>),
    UpnpClearRendererUrl,
    UpnpResetRenderer,
    ChromecastSetHttpPort(u16),
    ChromecastSetDeviceHost(Seq<char>),
    ChromecastSetDevicePort(u16),
    TcpSetHost(Seq<char>),
    TcpSetPort(u16),
    CmafSetHttpPort(u16),
    CmafSetBitrate(u32),
    CmafSetSegmentDir(Option<Seq<char>>),
    SwitchSink(Sink),
}

impl View for OutputStep {
    type V = StepModel;

    open spec fn view(&self) -> StepModel {
        match self {
            OutputStep::FifoSetPath(p) => StepModel::FifoSetPath(p@),
            OutputStep::AirplayClearReceivers => StepModel::AirplayClearReceivers,
            OutputStep::AirplayAddReceiver(h, p) => StepModel::AirplayAddReceiver(h@, *p),
            OutputStep::AirplaySetHost(h, p) => StepModel::AirplaySetHost(h@, *p),
            OutputStep::SqueezeliteSetSlimPort(p) => StepModel::SqueezeliteSetSlimPort(*p),
            OutputStep::SqueezeliteSetHttpPort(p) => StepModel::SqueezeliteSetHttpPort(*p),
            OutputStep::UpnpSetHttpPort(p) => StepModel::UpnpSetHttpPort(*p),
            OutputStep::UpnpSetRendererUrl(u) => StepModel::UpnpSetRendererUrl(u@),
            OutputStep::UpnpClearRendererUrl => StepModel::UpnpClearRendererUrl,
            OutputStep::UpnpResetRenderer => StepModel::UpnpResetRenderer,
            OutputStep::ChromecastSetHttpPort(p) => StepModel::ChromecastSetHttpPort(*p),
            OutputStep::ChromecastSetDeviceHost(h) => StepModel::ChromecastSetDeviceHost(h@),
            OutputStep::ChromecastSetDevicePort(p) => StepModel::ChromecastSetDevicePort(*p),
            OutputStep::TcpSetHost(h) => StepModel::TcpSetHost(h@),
            OutputStep::TcpSetPort(p) => StepModel::TcpSetPort(*p),
            OutputStep::CmafSetHttpPort(p) => StepModel::CmafSetHttpPort(*p),
            OutputStep::CmafSetBitrate(b) => StepModel::CmafSetBitrate(*b),
            OutputStep::CmafSetSegmentDir(d) => StepModel::CmafSetSegmentDir(opt_chars(*d)),
            OutputStep::SwitchSink(s) => StepModel::SwitchSink(*s),
        }
    }
}

/// The plain values of a list of firmware calls.
pub open spec fn steps_view(v: Seq<OutputStep>) -> Seq<StepModel> {
    v.map_values(|s: OutputStep| s@)
}

/// A port, or the default where none is set.
pub open spec fn port_or(o: Option<u16>, default: u16) -> u16 {
    match o {
        Some(p) => p,
        None => default,
    }
}

/// The FIFO path: the configured one or `/tmp/rockbox.fifo`.
pub open spec fn fifo_path_of(m: SettingsModel) -> Seq<char> {
    match m.fifo_path {
        Some(p) => p,
        None => "/tmp/rockbox.fifo"@,
    }
}

/// The call that adds one receiver of the multi-room list.
pub open spec fn add_receiver(r: (Seq<char>, Option<u16>)) -> StepModel {
    StepModel::AirplayAddReceiver(r.0, port_or(r.1, AIRPLAY_PORT))
}

/// The calls that set the saved audio output up at startup. The
/// multi-room receiver list wins over the single AirPlay host; an output
/// that lacks its host (AirPlay, Snapcast) is left unswitched, a Chromecast
/// without a host is switched to all the same; `builtin`, none and an
/// unknown name keep the built-in output and make no call.
pub open spec fn startup_steps(m: SettingsModel) -> Seq<StepModel> {
    match m.audio_output {
        Some(o) => if o == "fifo"@ {
            seq![StepModel::FifoSetPath(fifo_path_of(m)), StepModel::SwitchSink(Sink::Fifo)]
        } else if o == "airplay"@ {
            seq![StepModel::AirplayClearReceivers] + match m.airplay_receivers {
                Some(rs) => rs.map_values(|r: (Seq<char>, Option<u16>)| add_receiver(r)).push(
                    StepModel::SwitchSink(Sink::Airplay),
                ),
                None => match m.airplay_host {
                    Some(h) => seq![
                        StepModel::AirplaySetHost(h, port_or(m.airplay_port, AIRPLAY_PORT)),
                        StepModel::SwitchSink(Sink::Airplay),
                    ],
                    None => Seq::<StepModel>::empty(),
                },
            }
        } else if o == "squeezelite"@ {
            seq![
                StepModel::SqueezeliteSetSlimPort(port_or(m.squeezelite_port, SQUEEZELITE_PORT)),
                StepModel::SqueezeliteSetHttpPort(port_or(m.squeezelite_http_port, SQUEEZELITE_HTTP_PORT)),
                StepModel::SwitchSink(Sink::Squeezelite),
            ]
        } else if o == "upnp"@ {
            seq![StepModel::UpnpSetHttpPort(port_or(m.upnp_http_port, UPNP_HTTP_PORT)),
                match m.upnp_renderer_url {
                    Some(u) => StepModel::UpnpSetRendererUrl(u),
                    None => StepModel::UpnpClearRendererUrl,
                },
                StepModel::SwitchSink(Sink::Upnp),
            ]
        } else if o == "chromecast"@ {
            seq![StepModel::ChromecastSetHttpPort(port_or(m.chromecast_http_port, CHROMECAST_HTTP_PORT))]
                + match m.chromecast_host {
                Some(h) => seq![
                    StepModel::ChromecastSetDeviceHost(h),
                    StepModel::ChromecastSetDevicePort(port_or(m.chromecast_port, CHROMECAST_PORT)),
                ],
                None => Seq::<StepModel>::empty(),
            } + seq![StepModel::SwitchSink(Sink::Chromecast)]
        } else if o == "snapcast_tcp"@ {
            match m.snapcast_tcp_host {
                Some(h) => seq![
                    StepModel::TcpSetHost(h),
                    StepModel::TcpSetPort(port_or(m.snapcast_tcp_port, SNAPCAST_TCP_PORT)),
                    StepModel::SwitchSink(Sink::SnapcastTcp),
                ],
                None => Seq::<StepModel>::empty(),
            }
        } else {
            Seq::<StepModel>::empty()
        },
        None => Seq::<StepModel>::empty(),
    }
}

// ── Exec ────────────────────────────────────────────────────────────────────

/// Whether `s` is the text `lit`.
fn is_text(s: &str, lit: &str) -> (res: bool)
    ensures
        res == (s@ == lit@),
{
    chars_eq(&chars_of(s), &chars_of(lit))
}

fn opt_is_text(o: &Option<String>, lit: &str) -> (res: bool)
    ensures
        res == (opt_chars(*o) == Some(lit@)),
{
    match o {
        Some(s) => is_text(s.as_str(), lit),
        None => false,
    }
}

fn port_or_exec(o: Option<u16>, default: u16) -> (res: u16)
    ensures
        res == port_or(o, default),
{
    match o {
        Some(p) => p,
        None => default,
    }
}

fn copy_text(s: &String) -> (res: String)
    ensures
        res@ == s@,
{
    s.clone()
}

fn copy_opt_text(o: &Option<String>) -> (res: Option<String>)
    ensures
        opt_chars(res) == opt_chars(*o),
{
    match o {
        Some(s) => Some(s.clone()),
        None => None,
    }
}

/// The firmware calls that set up the audio output saved in `settings`
/// ([`startup_steps`]).
pub fn startup_output_steps(settings: &OutputSettings) -> (res: Vec<OutputStep>)
    ensures
        steps_view(res@) == startup_steps(settings@),
{
    let ghost m = settings@;
    let mut out: Vec<OutputStep> = Vec::new();
    if opt_is_text(&settings.audio_output, "fifo") {
        let path = match &settings.fifo_path {
            Some(p) => copy_text(p),
            None => string_of(&chars_of("/tmp/rockbox.fifo")),
        };
        out.push(OutputStep::FifoSetPath(path));
        out.push(OutputStep::SwitchSink(Sink::Fifo));
    } else if opt_is_text(&settings.audio_output, "airplay") {
        out.push(OutputStep::AirplayClearReceivers);
        match &settings.airplay_receivers {
            Some(rs) => {
                let ghost rm = m.airplay_receivers->0;
                let mut i: usize = 0;
                while i < rs.len()
                    invariant
                        i <= rs.len(),
                        rm == rs@.map_values(|r: AirplayReceiver| receiver_view(r)),
                        steps_view(out@) == seq![StepModel::AirplayClearReceivers] + rm.take(
                            i as int,
                        ).map_values(|r: (Seq<char>, Option<u16>)| add_receiver(r)),
                    decreases rs.len() - i,
                {
                    let r = &rs[i];
                    let ghost before = out@;
                    out.push(
                        OutputStep::AirplayAddReceiver(copy_text(&r.host), port_or_exec(r.port, AIRPLAY_PORT)),
                    );
                    assert(rm.take(i + 1) =~= rm.take(i as int).push(rm[i as int]));
                    assert(steps_view(out@) =~= steps_view(before).push(add_receiver(rm[i as int])));
                    i += 1;
                }
                assert(rm.take(rs.len() as int) =~= rm);
                let ghost before = out@;
                out.push(OutputStep::SwitchSink(Sink::Airplay));
                assert(steps_view(out@) =~= steps_view(before).push(StepModel::SwitchSink(Sink::Airplay)));
            },
            None => match &settings.airplay_host {
                Some(h) => {
                    out.push(
                        OutputStep::AirplaySetHost(copy_text(h), port_or_exec(settings.airplay_port, AIRPLAY_PORT)),
                    );
                    out.push(OutputStep::SwitchSink(Sink::Airplay));
                },
                None => {},
            },
        }
    } else if opt_is_text(&settings.audio_output, "squeezelite") {
        out.push(
            OutputStep::SqueezeliteSetSlimPort(port_or_exec(settings.squeezelite_port, SQUEEZELITE_PORT)),
        );
        out.push(
            OutputStep::SqueezeliteSetHttpPort(
                port_or_exec(settings.squeezelite_http_port, SQUEEZELITE_HTTP_PORT),
            ),
        );
        out.push(OutputStep::SwitchSink(Sink::Squeezelite));
    } else if opt_is_text(&settings.audio_output, "upnp") {
        out.push(OutputStep::UpnpSetHttpPort(port_or_exec(settings.upnp_http_port, UPNP_HTTP_PORT)));
        match &settings.upnp_renderer_url {
            Some(u) => out.push(OutputStep::UpnpSetRendererUrl(copy_text(u))),
            None => out.push(OutputStep::UpnpClearRendererUrl),
        }
        out.push(OutputStep::SwitchSink(Sink::Upnp));
    } else if opt_is_text(&settings.audio_output, "chromecast") {
        out.push(
            OutputStep::ChromecastSetHttpPort(
                port_or_exec(settings.chromecast_http_port, CHROMECAST_HTTP_PORT),
            ),
        );
        match &settings.chromecast_host {
            Some(h) => {
                out.push(OutputStep::ChromecastSetDeviceHost(copy_text(h)));
                out.push(
                    OutputStep::ChromecastSetDevicePort(port_or_exec(settings.chromecast_port, CHROMECAST_PORT)),
                );
            },
            None => {},
        }
        out.push(OutputStep::SwitchSink(Sink::Chromecast));
    } else if opt_is_text(&settings.audio_output, "snapcast_tcp") {
        match &settings.snapcast_tcp_host {
            Some(h) => {
                out.push(OutputStep::TcpSetHost(copy_text(h)));
                out.push(OutputStep::TcpSetPort(port_or_exec(settings.snapcast_tcp_port, SNAPCAST_TCP_PORT)));
                out.push(OutputStep::SwitchSink(Sink::SnapcastTcp));
            },
            None => {},
        }
    }
    proof {
        reveal_strlit("/tmp/rockbox.fifo");
        assert(steps_view(out@) =~= startup_steps(m));
    }
    out
}


// ── Output devices ──────────────────────────────────────────────────────────

/// An output device the player can connect to.
pub struct OutputDevice {
    pub id: String,
    pub name: String,
    pub host: String,
    pub ip: String,
    pub port: u16,
    /// `builtin`, `fifo`, `airplay`, `squeezelite`, `upnp`, `chromecast`,
    /// `snapcast` or `cmaf`.
    pub service: String,
    /// The kind of application behind the device.
    pub app: String,
    /// The control URL of a UPnP renderer.
    pub base_url: Option<String>,
    pub is_cast_device: bool,
    pub is_source_device: bool,
    pub is_current_device: bool,
}

/// The settings after connecting to a device of `service` at `ip:port`,
/// and the calls that switch the output to it; none for an unknown
/// service.
pub open spec fn connected(
    m: SettingsModel,
    service: Seq<char>,
    ip: Seq<char>,
    port: u16,
    base_url: Option<Seq<char>>,
) -> Option<(SettingsModel, Seq<StepModel>)> {
    if service == "builtin"@ {
        Some(
            (
                SettingsModel { audio_output: Some("builtin"@), ..m },
                seq![StepModel::SwitchSink(Sink::Builtin)],
            ),
        )
    } else if service == "fifo"@ {
        Some(
            (
                SettingsModel { audio_output: Some("fifo"@), ..m },
                seq![StepModel::FifoSetPath(fifo_path_of(m)), StepModel::SwitchSink(Sink::Fifo)],
            ),
        )
    } else if service == "airplay"@ {
        Some(
            (
                SettingsModel {
                    audio_output: Some("airplay"@),
                    airplay_host: Some(ip),
                    airplay_port: Some(port),
                    ..m
                },
                seq![
                    StepModel::AirplayClearReceivers,
                    StepModel::AirplaySetHost(ip, port),
                    StepModel::SwitchSink(Sink::Airplay),
                ],
            ),
        )
    } else if service == "squeezelite"@ {
        let slim = port_or(m.squeezelite_port, SQUEEZELITE_PORT);
        let http = port_or(m.squeezelite_http_port, SQUEEZELITE_HTTP_PORT);
        Some(
            (
                SettingsModel {
                    audio_output: Some("squeezelite"@),
                    squeezelite_port: Some(slim),
                    squeezelite_http_port: Some(http),
                    ..m
                },
                seq![
                    StepModel::SqueezeliteSetSlimPort(slim),
                    StepModel::SqueezeliteSetHttpPort(http),
                    StepModel::SwitchSink(Sink::Squeezelite),
                ],
            ),
        )
    } else if service == "upnp"@ {
        let http = port_or(m.upnp_http_port, UPNP_HTTP_PORT);
        let tail = seq![
            StepModel::UpnpSetHttpPort(http),
            StepModel::UpnpResetRenderer,
            StepModel::SwitchSink(Sink::Upnp),
        ];
        match base_url {
            Some(u) => Some(
                (
                    SettingsModel {
                        audio_output: Some("upnp"@),
                        upnp_renderer_url: Some(u),
                        ..m
                    },
                    seq![StepModel::UpnpSetRendererUrl(u)] + tail,
                ),
            ),
            None => Some((SettingsModel { audio_output: Some("upnp"@), ..m }, tail)),
        }
    } else if service == "chromecast"@ {
        let http = port_or(m.chromecast_http_port, CHROMECAST_HTTP_PORT);
        Some(
            (
                SettingsModel {
                    audio_output: Some("chromecast"@),
                    chromecast_host: Some(ip),
                    chromecast_port: Some(port),
                    ..m
                },
                seq![
                    StepModel::ChromecastSetHttpPort(http),
                    StepModel::ChromecastSetDeviceHost(ip),
                    StepModel::ChromecastSetDevicePort(port),
                    StepModel::SwitchSink(Sink::Chromecast),
                ],
            ),
        )
    } else if service == "snapcast"@ {
        Some(
            (
                SettingsModel {
                    audio_output: Some("snapcast_tcp"@),
                    snapcast_tcp_host: Some(ip),
                    snapcast_tcp_port: Some(port),
                    ..m
                },
                seq![
                    StepModel::TcpSetHost(ip),
                    StepModel::TcpSetPort(port),
                    StepModel::SwitchSink(Sink::SnapcastTcp),
                ],
            ),
        )
    } else if service == "cmaf"@ {
        let http = port_or(m.cmaf_http_port, CMAF_HTTP_PORT);
        let rate = match m.cmaf_bitrate {
            Some(b) => b,
            None => CMAF_BITRATE,
        };
        Some(
            (
                SettingsModel {
                    audio_output: Some("cmaf"@),
                    cmaf_http_port: Some(http),
                    cmaf_bitrate: Some(rate),
                    ..m
                },
                seq![
                    StepModel::CmafSetHttpPort(http),
                    StepModel::CmafSetBitrate(rate),
                    StepModel::CmafSetSegmentDir(m.cmaf_segment_dir),
                    StepModel::SwitchSink(Sink::Cmaf),
                ],
            ),
        )
    } else {
        None
    }
}

/// The device a connect request names: the first listed one with that id,
/// else the current device if it has it.
pub fn find_device<'a>(
    devices: &'a Vec<OutputDevice>,
    current: &'a Option<OutputDevice>,
    id: &str,
) -> (res: Option<&'a OutputDevice>)
    ensures
        match res {
            Some(d) => d.id@ == id@ && ((exists|i: int|
                0 <= i < devices@.len() && *d == devices@[i] && (forall|j: int|
                    0 <= j < i ==> #[trigger] devices@[j].id@ != id@)) || ((forall|j: int|
                0 <= j < devices@.len() ==> #[trigger] devices@[j].id@ != id@) && current
                == Some(*d))),
            None => (forall|j: int| 0 <= j < devices@.len() ==> #[trigger] devices@[j].id@ != id@)
                && !(current matches Some(c) && c.id@ == id@),
        },
{
    let mut i: usize = 0;
    while i < devices.len()
        invariant
            i <= devices.len(),
            forall|j: int| 0 <= j < i ==> #[trigger] devices@[j].id@ != id@,
        decreases devices.len() - i,
    {
        if is_text(devices[i].id.as_str(), id) {
            return Some(&devices[i]);
        }
        i += 1;
    }
    match current {
        Some(c) => if is_text(c.id.as_str(), id) {
            Some(c)
        } else {
            None
        },
        None => None,
    }
}

/// Whether the Chromecast sink must be torn down when switching from the
/// current device to `next`: when either of them is a Chromecast.
pub fn needs_chromecast_teardown(current: &Option<OutputDevice>, next: &OutputDevice) -> (res: bool)
    ensures
        res == ((current matches Some(c) && c.service@ == "chromecast"@) || next.service@
            == "chromecast"@),
{
    let old_is = match current {
        Some(c) => is_text(c.service.as_str(), "chromecast"),
        None => false,
    };
    old_is || is_text(next.service.as_str(), "chromecast")
}

fn set_text(slot: &mut Option<String>, lit: &str)
    ensures
        opt_chars(*final(slot)) == Some(lit@),
{
    *slot = Some(string_of(&chars_of(lit)));
}

/// Connects the output to `device`: records it in `settings` and gives the
/// calls that switch to it ([`connected`]); an unknown service changes
/// nothing and gives none.
pub fn connect_output(settings: &mut OutputSettings, device: &OutputDevice) -> (res: Option<Vec<OutputStep>>)
    ensures
        match connected(old(settings)@, device.service@, device.ip@, device.port, opt_chars(device.base_url)) {
            Some((m, steps)) => final(settings)@ == m && (res matches Some(v) && steps_view(v@) == steps),
            None => res is None && final(settings)@ == old(settings)@,
        },
{
    let ghost m = settings@;
    let service = device.service.as_str();
    let mut out: Vec<OutputStep> = Vec::new();
    proof {
        reveal_strlit("builtin");
        reveal_strlit("fifo");
        reveal_strlit("airplay");
        reveal_strlit("squeezelite");
        reveal_strlit("upnp");
        reveal_strlit("chromecast");
        reveal_strlit("snapcast");
        reveal_strlit("snapcast_tcp");
        reveal_strlit("cmaf");
        reveal_strlit("/tmp/rockbox.fifo");
    }
    if is_text(service, "builtin") {
        set_text(&mut settings.audio_output, "builtin");
        out.push(OutputStep::SwitchSink(Sink::Builtin));
    } else if is_text(service, "fifo") {
        set_text(&mut settings.audio_output, "fifo");
        let path = match &settings.fifo_path {
            Some(p) => copy_text(p),
            None => string_of(&chars_of("/tmp/rockbox.fifo")),
        };
        out.push(OutputStep::FifoSetPath(path));
        out.push(OutputStep::SwitchSink(Sink::Fifo));
    } else if is_text(service, "airplay") {
        set_text(&mut settings.audio_output, "airplay");
        settings.airplay_host = Some(copy_text(&device.ip));
        settings.airplay_port = Some(device.port);
        out.push(OutputStep::AirplayClearReceivers);
        out.push(OutputStep::AirplaySetHost(copy_text(&device.ip), device.port));
        out.push(OutputStep::SwitchSink(Sink::Airplay));
    } else if is_text(service, "squeezelite") {
        let slim = port_or_exec(settings.squeezelite_port, SQUEEZELITE_PORT);
        let http = port_or_exec(settings.squeezelite_http_port, SQUEEZELITE_HTTP_PORT);
        set_text(&mut settings.audio_output, "squeezelite");
        settings.squeezelite_port = Some(slim);
        settings.squeezelite_http_port = Some(http);
        out.push(OutputStep::SqueezeliteSetSlimPort(slim));
        out.push(OutputStep::SqueezeliteSetHttpPort(http));
        out.push(OutputStep::SwitchSink(Sink::Squeezelite));
    } else if is_text(service, "upnp") {
        let http = port_or_exec(settings.upnp_http_port, UPNP_HTTP_PORT);
        set_text(&mut settings.audio_output, "upnp");
        match &device.base_url {
            Some(u) => {
                settings.upnp_renderer_url = Some(copy_text(u));
                out.push(OutputStep::UpnpSetRendererUrl(copy_text(u)));
            },
            None => {},
        }
        out.push(OutputStep::UpnpSetHttpPort(http));
        out.push(OutputStep::UpnpResetRenderer);
        out.push(OutputStep::SwitchSink(Sink::Upnp));
    } else if is_text(service, "chromecast") {
        let http = port_or_exec(settings.chromecast_http_port, CHROMECAST_HTTP_PORT);
        set_text(&mut settings.audio_output, "chromecast");
        settings.chromecast_host = Some(copy_text(&device.ip));
        settings.chromecast_port = Some(device.port);
        out.push(OutputStep::ChromecastSetHttpPort(http));
        out.push(OutputStep::ChromecastSetDeviceHost(copy_text(&device.ip)));
        out.push(OutputStep::ChromecastSetDevicePort(device.port));
        out.push(OutputStep::SwitchSink(Sink::Chromecast));
    } else if is_text(service, "snapcast") {
        set_text(&mut settings.audio_output, "snapcast_tcp");
        settings.snapcast_tcp_host = Some(copy_text(&device.ip));
        settings.snapcast_tcp_port = Some(device.port);
        out.push(OutputStep::TcpSetHost(copy_text(&device.ip)));
        out.push(OutputStep::TcpSetPort(device.port));
        out.push(OutputStep::SwitchSink(Sink::SnapcastTcp));
    } else if is_text(service, "cmaf") {
        let http = port_or_exec(settings.cmaf_http_port, CMAF_HTTP_PORT);
        let rate = match settings.cmaf_bitrate {
            Some(b) => b,
            None => CMAF_BITRATE,
        };
        set_text(&mut settings.audio_output, "cmaf");
        settings.cmaf_http_port = Some(http);
        settings.cmaf_bitrate = Some(rate);
        out.push(OutputStep::CmafSetHttpPort(http));
        out.push(OutputStep::CmafSetBitrate(rate));
        out.push(OutputStep::CmafSetSegmentDir(copy_opt_text(&settings.cmaf_segment_dir)));
        out.push(OutputStep::SwitchSink(Sink::Cmaf));
    } else {
        return None;
    }
    proof {
        let (m2, steps) = connected(m, device.service@, device.ip@, device.port, opt_chars(device.base_url))->0;
        assert(steps_view(out@) =~= steps);
        assert(settings@ == m2);
    }
    Some(out)
}

/// Disconnects from the current device: records the built-in output in
/// `settings` and gives whether the Chromecast sink must be torn down (the
/// current device is one) and the calls that switch back.
pub fn disconnect_output(settings: &mut OutputSettings, current: &Option<OutputDevice>) -> (res: (bool, Vec<OutputStep>))
    ensures
        res.0 == (current matches Some(c) && c.service@ == "chromecast"@),
        steps_view(res.1@) == seq![StepModel::SwitchSink(Sink::Builtin)],
        final(settings)@ == (SettingsModel { audio_output: Some("builtin"@), ..old(settings)@ }),
{
    let teardown = match current {
        Some(c) => is_text(c.service.as_str(), "chromecast"),
        None => false,
    };
    set_text(&mut settings.audio_output, "builtin");
    let mut out: Vec<OutputStep> = Vec::new();
    out.push(OutputStep::SwitchSink(Sink::Builtin));
    assert(steps_view(out@) =~= seq![StepModel::SwitchSink(Sink::Builtin)]);
    (teardown, out)
}

/// Marks the device with id `id` as the current one, and every other as
/// not current.
pub fn mark_current(devices: &mut Vec<OutputDevice>, id: &str)
    ensures
        final(devices)@.len() == old(devices)@.len(),
        forall|i: int|
            0 <= i < old(devices)@.len() ==> #[trigger] final(devices)@[i] == (OutputDevice {
                is_current_device: old(devices)@[i].id@ == id@,
                ..old(devices)@[i]
            }),
{
    let mut i: usize = 0;
    while i < devices.len()
        invariant
            i <= devices.len(),
            devices@.len() == old(devices)@.len(),
            forall|j: int|
                0 <= j < i ==> #[trigger] devices@[j] == (OutputDevice {
                    is_current_device: old(devices)@[j].id@ == id@,
                    ..old(devices)@[j]
                }),
            forall|j: int| i <= j < devices@.len() ==> #[trigger] devices@[j] == old(devices)@[j],
        decreases devices.len() - i,
    {
        let b = is_text(devices[i].id.as_str(), id);
        devices[i].is_current_device = b;
        i += 1;
    }
}


// ── The device list ─────────────────────────────────────────────────────────

/// A device as plain values.
pub struct DeviceModel {
    pub id: Seq<char>,
    pub name: Seq<char>,
    pub host: Seq<char>,
    pub ip: Seq<char>,
    pub port: u16,
    pub service: Seq<char>,
    pub app: Seq<char>,
    pub base_url: Option<Seq<char>>,
    pub is_cast_device: bool,
    pub is_source_device: bool,
    pub is_current_device: bool,
}

impl View for OutputDevice {
    type V = DeviceModel;

    open spec fn view(&self) -> DeviceModel {
        DeviceModel {
            id: self.id@,
            name: self.name@,
            host: self.host@,
            ip: self.ip@,
            port: self.port,
            service: self.service@,
            app: self.app@,
            base_url: opt_chars(self.base_url),
            is_cast_device: self.is_cast_device,
            is_source_device: self.is_source_device,
            is_current_device: self.is_current_device,
        }
    }
}

/// A list of devices as plain values.
pub open spec fn devices_view(v: Seq<OutputDevice>) -> Seq<DeviceModel> {
    v.map_values(|d: OutputDevice| d@)
}

/// The ids of a list of devices.
pub open spec fn device_ids(v: Seq<DeviceModel>) -> Seq<Seq<char>> {
    v.map_values(|d: DeviceModel| d.id)
}

/// A local device that is always there: on this host, port 0, neither a
/// cast nor a source device, named `name`, of service and application
/// `service`.
pub open spec fn local_device(id: Seq<char>, name: Seq<char>) -> DeviceModel {
    DeviceModel {
        id,
        name,
        host: "localhost"@,
        ip: "127.0.0.1"@,
        port: 0,
        service: id,
        app: id,
        base_url: None,
        is_cast_device: false,
        is_source_device: false,
        is_current_device: false,
    }
}

/// A Squeezelite client connected over the Slim Protocol.
pub struct SlimClient {
    pub id: String,
    pub name: String,
    pub ip: String,
}

/// The ids of the connected clients.
pub open spec fn client_ids(cs: Seq<SlimClient>) -> Seq<Seq<char>> {
    cs.map_values(|c: SlimClient| c.id@)
}

/// The device of a connected Squeezelite client.
pub open spec fn slim_device(c: SlimClient) -> DeviceModel {
    DeviceModel {
        id: c.id@,
        name: c.name@,
        host: c.ip@,
        ip: c.ip@,
        port: SQUEEZELITE_PORT,
        service: "squeezelite"@,
        app: "squeezelite"@,
        base_url: None,
        is_cast_device: false,
        is_source_device: false,
        is_current_device: false,
    }
}

/// The devices with a device appended for each client, in order, whose id
/// is not listed yet.
pub open spec fn with_new_clients(ds: Seq<DeviceModel>, cs: Seq<SlimClient>) -> Seq<DeviceModel>
    decreases cs.len(),
{
    if cs.len() == 0 {
        ds
    } else {
        let r = with_new_clients(ds, cs.drop_last());
        if device_ids(r).contains(cs.last().id@) {
            r
        } else {
            r.push(slim_device(cs.last()))
        }
    }
}

/// The devices without the Squeezelite ones whose client is gone.
pub open spec fn still_connected(ds: Seq<DeviceModel>, cs: Seq<SlimClient>) -> Seq<DeviceModel>
    decreases ds.len(),
{
    if ds.len() == 0 {
        Seq::<DeviceModel>::empty()
    } else {
        let r = still_connected(ds.drop_last(), cs);
        if ds.last().service != "squeezelite"@ || client_ids(cs).contains(ds.last().id) {
            r.push(ds.last())
        } else {
            r
        }
    }
}

fn local_device_exec(id: &str, name: &str) -> (res: OutputDevice)
    ensures
        res@ == local_device(id@, name@),
{
    OutputDevice {
        id: string_of(&chars_of(id)),
        name: string_of(&chars_of(name)),
        host: string_of(&chars_of("localhost")),
        ip: string_of(&chars_of("127.0.0.1")),
        port: 0,
        service: string_of(&chars_of(id)),
        app: string_of(&chars_of(id)),
        base_url: None,
        is_cast_device: false,
        is_source_device: false,
        is_current_device: false,
    }
}

/// The output devices that are always there: the built-in output and the
/// Snapcast FIFO.
pub fn virtual_devices() -> (res: Vec<OutputDevice>)
    ensures
        devices_view(res@) == seq![
            local_device("builtin"@, "Rockbox (Built-in)"@),
            local_device("fifo"@, "Snapcast (FIFO)"@),
        ],
{
    let mut v: Vec<OutputDevice> = Vec::new();
    v.push(local_device_exec("builtin", "Rockbox (Built-in)"));
    v.push(local_device_exec("fifo", "Snapcast (FIFO)"));
    assert(devices_view(v@) =~= seq![
        local_device("builtin"@, "Rockbox (Built-in)"@),
        local_device("fifo"@, "Snapcast (FIFO)"@),
    ]);
    v
}

/// The id of a UPnP renderer: its UDN, or where it has none the MD5 of its
/// description URL in lower-case hex.
pub fn upnp_device_id(udn: &str, location: &str) -> (res: String)
    ensures
        res@ == if udn@.len() == 0 {
            hex_lower(md5_of(encode_utf8(location@)))
        } else {
            udn@
        },
{
    let u = chars_of(udn);
    if u.len() == 0 {
        crate::broker::path_hash(location)
    } else {
        string_of(&u)
    }
}

fn copy_device(d: &OutputDevice) -> (res: OutputDevice)
    ensures
        res@ == d@,
{
    OutputDevice {
        id: copy_text(&d.id),
        name: copy_text(&d.name),
        host: copy_text(&d.host),
        ip: copy_text(&d.ip),
        port: d.port,
        service: copy_text(&d.service),
        app: copy_text(&d.app),
        base_url: copy_opt_text(&d.base_url),
        is_cast_device: d.is_cast_device,
        is_source_device: d.is_source_device,
        is_current_device: d.is_current_device,
    }
}

/// Whether a device with id `id` is listed.
pub fn has_device(devices: &Vec<OutputDevice>, id: &str) -> (res: bool)
    ensures
        res == device_ids(devices_view(devices@)).contains(id@),
{
    let ghost ids = device_ids(devices_view(devices@));
    let mut i: usize = 0;
    while i < devices.len()
        invariant
            i <= devices@.len(),
            ids == device_ids(devices_view(devices@)),
            forall|j: int| 0 <= j < i ==> ids[j] != id@,
        decreases devices.len() - i,
    {
        if is_text(devices[i].id.as_str(), id) {
            assert(ids[i as int] == id@);
            return true;
        }
        i += 1;
    }
    false
}

/// Lists a discovered device unless one with its id is listed already;
/// says whether it did.
pub fn add_device(devices: &mut Vec<OutputDevice>, device: OutputDevice) -> (res: bool)
    ensures
        res == !device_ids(devices_view(old(devices)@)).contains(device.id@),
        devices_view(final(devices)@) == if res {
            devices_view(old(devices)@).push(device@)
        } else {
            devices_view(old(devices)@)
        },
{
    if has_device(devices, device.id.as_str()) {
        return false;
    }
    let ghost before = devices@;
    devices.push(device);
    assert(devices_view(devices@) =~= devices_view(before).push(device@));
    true
}

fn client_connected(connected: &[SlimClient], id: &str) -> (res: bool)
    ensures
        res == client_ids(connected@).contains(id@),
{
    let ghost ids = client_ids(connected@);
    let mut i: usize = 0;
    while i < connected.len()
        invariant
            i <= connected@.len(),
            ids == client_ids(connected@),
            forall|j: int| 0 <= j < i ==> ids[j] != id@,
        decreases connected.len() - i,
    {
        if is_text(connected[i].id.as_str(), id) {
            assert(ids[i as int] == id@);
            return true;
        }
        i += 1;
    }
    false
}

/// Brings the device list up to date with the connected Squeezelite
/// clients: a device is added for each new client, in order, and the
/// Squeezelite devices whose client is gone are removed; the others keep
/// their order.
pub fn sync_squeezelite(devices: &mut Vec<OutputDevice>, connected: &[SlimClient])
    ensures
        devices_view(final(devices)@) == still_connected(
            with_new_clients(devices_view(old(devices)@), connected@),
            connected@,
        ),
{
    let ghost d0 = devices_view(devices@);
    let ghost cs = connected@;
    let mut i: usize = 0;
    assert(cs.take(0) =~= Seq::<SlimClient>::empty());
    while i < connected.len()
        invariant
            i <= cs.len(),
            cs == connected@,
            devices_view(devices@) == with_new_clients(d0, cs.take(i as int)),
        decreases connected.len() - i,
    {
        let c = &connected[i];
        assert(cs.take(i + 1).drop_last() =~= cs.take(i as int));
        assert(cs.take(i + 1).last() == cs[i as int]);
        let ghost before = devices@;
        if !has_device(devices, c.id.as_str()) {
            let d = OutputDevice {
                id: copy_text(&c.id),
                name: copy_text(&c.name),
                host: copy_text(&c.ip),
                ip: copy_text(&c.ip),
                port: SQUEEZELITE_PORT,
                service: string_of(&chars_of("squeezelite")),
                app: string_of(&chars_of("squeezelite")),
                base_url: None,
                is_cast_device: false,
                is_source_device: false,
                is_current_device: false,
            };
            assert(d@ == slim_device(cs[i as int]));
            devices.push(d);
            assert(devices_view(devices@) =~= devices_view(before).push(slim_device(cs[i as int])));
        }
        i += 1;
    }
    assert(cs.take(cs.len() as int) =~= cs);
    let ghost d1 = devices_view(devices@);
    let mut kept: Vec<OutputDevice> = Vec::new();
    let mut j: usize = 0;
    assert(d1.take(0) =~= Seq::<DeviceModel>::empty());
    while j < devices.len()
        invariant
            j <= devices@.len(),
            d1 == devices_view(devices@),
            cs == connected@,
            devices_view(kept@) == still_connected(d1.take(j as int), cs),
        decreases devices.len() - j,
    {
        let d = &devices[j];
        assert(d1.take(j + 1).drop_last() =~= d1.take(j as int));
        assert(d1.take(j + 1).last() == d1[j as int]);
        let ghost before = kept@;
        if !is_text(d.service.as_str(), "squeezelite") || client_connected(connected, d.id.as_str()) {
            kept.push(copy_device(d));
            assert(devices_view(kept@) =~= devices_view(before).push(d1[j as int]));
        }
        j += 1;
    }
    assert(d1.take(devices.len() as int) =~= d1);
    *devices = kept;
}

// ── The connect request ─────────────────────────────────────────────────────

/// What a connect request does besides changing the device list and the
/// settings, in order.
pub enum ConnectAction {
    /// Stop and release the external player, if one is attached.
    ReleasePlayer,
    /// Tear the Chromecast sink down.
    ChromecastTeardown,
    /// Make a sink call.
    Output(OutputStep),
    /// Let the broker drive the firmware again (clear the firmware lock).
    ResumeFirmware,
    /// Write the settings to the settings file.
    SaveSettings,
}

/// A connect action as plain values.
pub enum ActionModel {
    ReleasePlayer,
    ChromecastTeardown,
    Output(StepModel),
    ResumeFirmware,
    SaveSettings,
}

impl View for ConnectAction {
    type V = ActionModel;

    open spec fn view(&self) -> ActionModel {
        match self {
            ConnectAction::ReleasePlayer => ActionModel::ReleasePlayer,
            ConnectAction::ChromecastTeardown => ActionModel::ChromecastTeardown,
            ConnectAction::Output(st) => ActionModel::Output(st@),
            ConnectAction::ResumeFirmware => ActionModel::ResumeFirmware,
            ConnectAction::SaveSettings => ActionModel::SaveSettings,
        }
    }
}

/// A list of connect actions as plain values.
pub open spec fn actions_view(v: Seq<ConnectAction>) -> Seq<ActionModel> {
    v.map_values(|a: ConnectAction| a@)
}

/// How a connect request ends.
#[derive(Debug, Clone, Copy, PartialEq, Eq, Structural)]
pub enum ConnectOutcome {
    /// No device has the id: 404.
    NotFound,
    /// The device's service is unknown: 400.
    UnknownService,
    /// Switched: 200.
    Connected,
}

/// The index of the first device with id `id`.
pub open spec fn first_with_id(ds: Seq<DeviceModel>, id: Seq<char>) -> Option<int>
    decreases ds.len(),
{
    if ds.len() == 0 {
        None
    } else if ds[0].id == id {
        Some(0)
    } else {
        match first_with_id(ds.drop_first(), id) {
            Some(i) => Some(i + 1),
            None => None,
        }
    }
}

/// The device a connect request names: the first listed one with the id,
/// else the current device if it has it.
pub open spec fn device_to_connect(ds: Seq<DeviceModel>, cur: Option<DeviceModel>, id: Seq<char>) -> Option<DeviceModel> {
    match first_with_id(ds, id) {
        Some(i) => Some(ds[i]),
        None => match cur {
            Some(c) => if c.id == id {
                Some(c)
            } else {
                None
            },
            None => None,
        },
    }
}

/// An optional device as plain values.
pub open spec fn opt_device_view(d: Option<OutputDevice>) -> Option<DeviceModel> {
    match d {
        Some(x) => Some(x@),
        None => None,
    }
}

/// The devices with the one of id `id` marked current and the others not.
pub open spec fn marked(ds: Seq<DeviceModel>, id: Seq<char>) -> Seq<DeviceModel> {
    ds.map_values(|d: DeviceModel| DeviceModel { is_current_device: d.id == id, ..d })
}

/// What a connect request does before it looks at the service: release
/// the player, and tear the Chromecast sink down when the current or the
/// new device is one.
pub open spec fn connect_preamble(cur: Option<DeviceModel>, d: DeviceModel) -> Seq<ActionModel> {
    if (cur matches Some(c) && c.service == "chromecast"@) || d.service == "chromecast"@ {
        seq![ActionModel::ReleasePlayer, ActionModel::ChromecastTeardown]
    } else {
        seq![ActionModel::ReleasePlayer]
    }
}

/// The sink calls as connect actions.
pub open spec fn output_actions(steps: Seq<StepModel>) -> Seq<ActionModel> {
    steps.map_values(|st: StepModel| ActionModel::Output(st))
}

proof fn lemma_first_with_id_at(ds: Seq<DeviceModel>, id: Seq<char>, i: int)
    requires
        0 <= i < ds.len(),
        ds[i].id == id,
        forall|j: int| 0 <= j < i ==> (#[trigger] ds[j]).id != id,
    ensures
        first_with_id(ds, id) == Some(i),
    decreases i,
{
    if i > 0 {
        let t = ds.drop_first();
        assert forall|j: int| 0 <= j < i - 1 implies (#[trigger] t[j]).id != id by {
            assert(t[j] == ds[j + 1]);
        }
        lemma_first_with_id_at(t, id, i - 1);
    }
}

proof fn lemma_first_with_id_none(ds: Seq<DeviceModel>, id: Seq<char>)
    requires
        forall|j: int| 0 <= j < ds.len() ==> (#[trigger] ds[j]).id != id,
    ensures
        first_with_id(ds, id) is None,
    decreases ds.len(),
{
    if ds.len() > 0 {
        let t = ds.drop_first();
        assert forall|j: int| 0 <= j < t.len() implies (#[trigger] t[j]).id != id by {
            assert(t[j] == ds[j + 1]);
        }
        lemma_first_with_id_none(t, id);
    }
}

/// The device a connect request names ([`device_to_connect`]), copied.
fn device_for(devices: &Vec<OutputDevice>, current: &Option<OutputDevice>, id: &str) -> (res: Option<OutputDevice>)
    ensures
        opt_device_view(res) == device_to_connect(devices_view(devices@), opt_device_view(*current), id@),
        res matches Some(d) ==> d.id@ == id@,
{
    let ghost dv = devices_view(devices@);
    let mut i: usize = 0;
    while i < devices.len()
        invariant
            i <= devices@.len(),
            dv == devices_view(devices@),
            forall|j: int| 0 <= j < i ==> (#[trigger] dv[j]).id != id@,
        decreases devices.len() - i,
    {
        if is_text(devices[i].id.as_str(), id) {
            proof {
                lemma_first_with_id_at(dv, id@, i as int);
            }
            return Some(copy_device(&devices[i]));
        }
        i += 1;
    }
    proof {
        lemma_first_with_id_none(dv, id@);
    }
    match current {
        Some(c) => if is_text(c.id.as_str(), id) {
            Some(copy_device(c))
        } else {
            None
        },
        None => None,
    }
}

/// A connect request for device `id`, over the device list, the current
/// device and the saved settings. A device that is not found changes
/// nothing and asks nothing. Otherwise the external player is released and
/// the Chromecast sink torn down where the current or the new device is
/// one; an unknown service then ends the request with nothing else changed.
/// A known service is recorded in the settings ([`connected`]), its sink
/// calls are made, the firmware is resumed and the settings saved; the
/// device becomes the current one and the only one marked current.
pub fn connect_request(
    devices: &mut Vec<OutputDevice>,
    current: &mut Option<OutputDevice>,
    settings: &mut OutputSettings,
    id: &str,
) -> (res: (ConnectOutcome, Vec<ConnectAction>))
    ensures
        match device_to_connect(devices_view(old(devices)@), opt_device_view(*old(current)), id@) {
            None => {
                &&& res.0 == ConnectOutcome::NotFound
                &&& res.1@.len() == 0
                &&& final(devices)@ == old(devices)@
                &&& *final(current) == *old(current)
                &&& final(settings)@ == old(settings)@
            },
            Some(d) => {
                let pre = connect_preamble(opt_device_view(*old(current)), d);
                match connected(old(settings)@, d.service, d.ip, d.port, d.base_url) {
                    None => {
                        &&& res.0 == ConnectOutcome::UnknownService
                        &&& actions_view(res.1@) == pre
                        &&& final(devices)@ == old(devices)@
                        &&& *final(current) == *old(current)
                        &&& final(settings)@ == old(settings)@
                    },
                    Some((m, steps)) => {
                        &&& res.0 == ConnectOutcome::Connected
                        &&& actions_view(res.1@) == pre + output_actions(steps) + seq![
                            ActionModel::ResumeFirmware,
                            ActionModel::SaveSettings,
                        ]
                        &&& final(settings)@ == m
                        &&& opt_device_view(*final(current)) == Some(d)
                        &&& devices_view(final(devices)@) == marked(devices_view(old(devices)@), id@)
                    },
                }
            },
        },
{
    let ghost dv0 = devices_view(devices@);
    let ghost cur0 = opt_device_view(*current);
    let ghost m0 = settings@;
    let mut actions: Vec<ConnectAction> = Vec::new();
    let device = match device_for(devices, current, id) {
        Some(d) => d,
        None => return (ConnectOutcome::NotFound, actions),
    };
    let ghost dm = device@;
    actions.push(ConnectAction::ReleasePlayer);
    if needs_chromecast_teardown(current, &device) {
        actions.push(ConnectAction::ChromecastTeardown);
    }
    proof {
        reveal_strlit("chromecast");
        assert(actions_view(actions@) =~= connect_preamble(cur0, dm));
    }
    let steps = match connect_output(settings, &device) {
        Some(st) => st,
        None => return (ConnectOutcome::UnknownService, actions),
    };
    let ghost pre = actions_view(actions@);
    let ghost sv = steps_view(steps@);
    let mut k: usize = 0;
    let mut rest = steps;
    assert(output_actions(sv.take(0)) =~= Seq::<ActionModel>::empty());
    assert(actions_view(actions@) =~= pre + output_actions(sv.take(0)));
    while k < rest.len()
        invariant
            k <= rest@.len(),
            sv == steps_view(rest@),
            actions_view(actions@) == pre + output_actions(sv.take(k as int)),
        decreases rest.len() - k,
    {
        let st = copy_step(&rest[k]);
        let ghost before = actions_view(actions@);
        actions.push(ConnectAction::Output(st));
        assert(sv.take(k + 1) =~= sv.take(k as int).push(sv[k as int]));
        assert(output_actions(sv.take(k + 1)) =~= output_actions(sv.take(k as int)).push(
            ActionModel::Output(sv[k as int]),
        ));
        assert(actions_view(actions@) =~= before.push(ActionModel::Output(sv[k as int])));
        k += 1;
    }
    assert(sv.take(rest.len() as int) =~= sv);
    let ghost mid = actions_view(actions@);
    actions.push(ConnectAction::ResumeFirmware);
    actions.push(ConnectAction::SaveSettings);
    assert(actions_view(actions@) =~= mid + seq![ActionModel::ResumeFirmware, ActionModel::SaveSettings]);
    let ghost dv_before = devices@;
    mark_current(devices, device.id.as_str());
    assert forall|i: int| 0 <= i < devices@.len() implies #[trigger] devices_view(devices@)[i] == marked(
        dv0,
        id@,
    )[i] by {
        assert(devices@[i] == (OutputDevice { is_current_device: dv_before[i].id@ == id@, ..dv_before[i] }));
    }
    assert(devices_view(devices@) =~= marked(dv0, id@));
    *current = Some(device);
    (ConnectOutcome::Connected, actions)
}

fn copy_step(st: &OutputStep) -> (res: OutputStep)
    ensures
        res@ == st@,
{
    match st {
        OutputStep::FifoSetPath(p) => OutputStep::FifoSetPath(copy_text(p)),
        OutputStep::AirplayClearReceivers => OutputStep::AirplayClearReceivers,
        OutputStep::AirplayAddReceiver(h, p) => OutputStep::AirplayAddReceiver(copy_text(h), *p),
        OutputStep::AirplaySetHost(h, p) => OutputStep::AirplaySetHost(copy_text(h), *p),
        OutputStep::SqueezeliteSetSlimPort(p) => OutputStep::SqueezeliteSetSlimPort(*p),
        OutputStep::SqueezeliteSetHttpPort(p) => OutputStep::SqueezeliteSetHttpPort(*p),
        OutputStep::UpnpSetHttpPort(p) => OutputStep::UpnpSetHttpPort(*p),
        OutputStep::UpnpSetRendererUrl(u) => OutputStep::UpnpSetRendererUrl(copy_text(u)),
        OutputStep::UpnpClearRendererUrl => OutputStep::UpnpClearRendererUrl,
        OutputStep::UpnpResetRenderer => OutputStep::UpnpResetRenderer,
        OutputStep::ChromecastSetHttpPort(p) => OutputStep::ChromecastSetHttpPort(*p),
        OutputStep::ChromecastSetDeviceHost(h) => OutputStep::ChromecastSetDeviceHost(copy_text(h)),
        OutputStep::ChromecastSetDevicePort(p) => OutputStep::ChromecastSetDevicePort(*p),
        OutputStep::TcpSetHost(h) => OutputStep::TcpSetHost(copy_text(h)),
        OutputStep::TcpSetPort(p) => OutputStep::TcpSetPort(*p),
        OutputStep::CmafSetHttpPort(p) => OutputStep::CmafSetHttpPort(*p),
        OutputStep::CmafSetBitrate(b) => OutputStep::CmafSetBitrate(*b),
        OutputStep::CmafSetSegmentDir(d) => OutputStep::CmafSetSegmentDir(copy_opt_text(d)),
        OutputStep::SwitchSink(k) => OutputStep::SwitchSink(*k),
    }
}

// ── Laws ────────────────────────────────────────────────────────────────────

/// The names of the outputs and services are told apart.
proof fn lemma_output_names_distinct()
    ensures
        "builtin"@ != "fifo"@,
        "builtin"@ != "airplay"@,
        "builtin"@ != "squeezelite"@,
        "builtin"@ != "upnp"@,
        "builtin"@ != "chromecast"@,
        "builtin"@ != "snapcast_tcp"@,
        "builtin"@ != "snapcast"@,
        "builtin"@ != "cmaf"@,
        "fifo"@ != "airplay"@,
        "fifo"@ != "squeezelite"@,
        "fifo"@ != "upnp"@,
        "fifo"@ != "chromecast"@,
        "fifo"@ != "snapcast_tcp"@,
        "fifo"@ != "snapcast"@,
        "fifo"@ != "cmaf"@,
        "airplay"@ != "squeezelite"@,
        "airplay"@ != "upnp"@,
        "airplay"@ != "chromecast"@,
        "airplay"@ != "snapcast_tcp"@,
        "airplay"@ != "snapcast"@,
        "airplay"@ != "cmaf"@,
        "squeezelite"@ != "upnp"@,
        "squeezelite"@ != "chromecast"@,
        "squeezelite"@ != "snapcast_tcp"@,
        "squeezelite"@ != "snapcast"@,
        "squeezelite"@ != "cmaf"@,
        "upnp"@ != "chromecast"@,
        "upnp"@ != "snapcast_tcp"@,
        "upnp"@ != "snapcast"@,
        "upnp"@ != "cmaf"@,
        "chromecast"@ != "snapcast_tcp"@,
        "chromecast"@ != "snapcast"@,
        "chromecast"@ != "cmaf"@,
        "snapcast_tcp"@ != "snapcast"@,
        "snapcast_tcp"@ != "cmaf"@,
        "snapcast"@ != "cmaf"@,
{
    reveal_strlit("builtin");
    reveal_strlit("fifo");
    reveal_strlit("airplay");
    reveal_strlit("squeezelite");
    reveal_strlit("upnp");
    reveal_strlit("chromecast");
    reveal_strlit("snapcast_tcp");
    reveal_strlit("snapcast");
    reveal_strlit("cmaf");
    assert("builtin"@.len() != "fifo"@.len());
    assert("builtin"@[0] != "airplay"@[0]);
    assert("builtin"@.len() != "squeezelite"@.len());
    assert("builtin"@.len() != "upnp"@.len());
    assert("builtin"@.len() != "chromecast"@.len());
    assert("builtin"@.len() != "snapcast_tcp"@.len());
    assert("builtin"@.len() != "snapcast"@.len());
    assert("builtin"@.len() != "cmaf"@.len());
    assert("fifo"@.len() != "airplay"@.len());
    assert("fifo"@.len() != "squeezelite"@.len());
    assert("fifo"@[0] != "upnp"@[0]);
    assert("fifo"@.len() != "chromecast"@.len());
    assert("fifo"@.len() != "snapcast_tcp"@.len());
    assert("fifo"@.len() != "snapcast"@.len());
    assert("fifo"@[0] != "cmaf"@[0]);
    assert("airplay"@.len() != "squeezelite"@.len());
    assert("airplay"@.len() != "upnp"@.len());
    assert("airplay"@.len() != "chromecast"@.len());
    assert("airplay"@.len() != "snapcast_tcp"@.len());
    assert("airplay"@.len() != "snapcast"@.len());
    assert("airplay"@.len() != "cmaf"@.len());
    assert("squeezelite"@.len() != "upnp"@.len());
    assert("squeezelite"@.len() != "chromecast"@.len());
    assert("squeezelite"@.len() != "snapcast_tcp"@.len());
    assert("squeezelite"@.len() != "snapcast"@.len());
    assert("squeezelite"@.len() != "cmaf"@.len());
    assert("upnp"@.len() != "chromecast"@.len());
    assert("upnp"@.len() != "snapcast_tcp"@.len());
    assert("upnp"@.len() != "snapcast"@.len());
    assert("upnp"@[0] != "cmaf"@[0]);
    assert("chromecast"@.len() != "snapcast_tcp"@.len());
    assert("chromecast"@.len() != "snapcast"@.len());
    assert("chromecast"@.len() != "cmaf"@.len());
    assert("snapcast_tcp"@.len() != "snapcast"@.len());
    assert("snapcast_tcp"@.len() != "cmaf"@.len());
    assert("snapcast"@.len() != "cmaf"@.len());
}

/// The output a device was connected to is the one set up again at the
/// next start, by the same calls, for the FIFO, AirPlay (without a
/// multi-room list), squeezelite, Chromecast and Snapcast services.
pub proof fn law_connected_output_restored_at_startup(
    m: SettingsModel,
    service: Seq<char>,
    ip: Seq<char>,
    port: u16,
    base_url: Option<Seq<char>>,
)
    requires
        service == "fifo"@ || (service == "airplay"@ && m.airplay_receivers is None) || service
            == "squeezelite"@ || service == "chromecast"@ || service == "snapcast"@,
    ensures
        connected(m, service, ip, port, base_url) matches Some((m2, steps)) && startup_steps(m2)
            == steps,
{
    reveal_strlit("fifo");
    reveal_strlit("airplay");
    reveal_strlit("squeezelite");
    reveal_strlit("upnp");
    reveal_strlit("chromecast");
    reveal_strlit("snapcast");
    reveal_strlit("snapcast_tcp");
    reveal_strlit("builtin");
    reveal_strlit("cmaf");
    lemma_output_names_distinct();
    let (m2, steps) = connected(m, service, ip, port, base_url)->0;
    assert(startup_steps(m2) =~= steps);
}

/// After a disconnect the next start keeps the built-in output and makes
/// no call.
pub proof fn law_disconnected_output_is_builtin_at_startup(m: SettingsModel)
    ensures
        startup_steps(SettingsModel { audio_output: Some("builtin"@), ..m }) == Seq::<StepModel>::empty(),
{
    reveal_strlit("builtin");
    reveal_strlit("fifo");
    reveal_strlit("airplay");
    reveal_strlit("squeezelite");
    reveal_strlit("upnp");
    reveal_strlit("chromecast");
    reveal_strlit("snapcast_tcp");
    lemma_output_names_distinct();
}

} // verus!
