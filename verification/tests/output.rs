use rockboxd::output::{
    add_device, connect_output, connect_request, ConnectAction, ConnectOutcome, disconnect_output, find_device, has_device, mark_current,
    needs_chromecast_teardown, startup_output_steps, sync_squeezelite, upnp_device_id,
    virtual_devices, AirplayReceiver, OutputDevice, OutputSettings, OutputStep, SlimClient, Sink,
};

fn empty_settings() -> OutputSettings {
    OutputSettings {
        audio_output: None,
        fifo_path: None,
        airplay_receivers: None,
        airplay_host: None,
        airplay_port: None,
        squeezelite_port: None,
        squeezelite_http_port: None,
        upnp_http_port: None,
        upnp_renderer_url: None,
        chromecast_http_port: None,
        chromecast_host: None,
        chromecast_port: None,
        snapcast_tcp_host: None,
        snapcast_tcp_port: None,
        cmaf_http_port: None,
        cmaf_bitrate: None,
        cmaf_segment_dir: None,
    }
}

fn with_output(name: &str) -> OutputSettings {
    let mut s = empty_settings();
    s.audio_output = Some(name.to_string());
    s
}

fn device(id: &str, service: &str, ip: &str, port: u16) -> OutputDevice {
    OutputDevice {
        id: id.to_string(),
        name: id.to_uppercase(),
        host: ip.to_string(),
        ip: ip.to_string(),
        port,
        service: service.to_string(),
        app: service.to_string(),
        base_url: None,
        is_cast_device: false,
        is_source_device: false,
        is_current_device: false,
    }
}

#[test]
fn builtin_and_unknown_outputs_make_no_call() {
    assert!(startup_output_steps(&empty_settings()).is_empty());
    assert!(startup_output_steps(&with_output("builtin")).is_empty());
    assert!(startup_output_steps(&with_output("laser")).is_empty());
}

#[test]
fn fifo_output_uses_the_default_path() {
    let steps = startup_output_steps(&with_output("fifo"));
    assert_eq!(steps.len(), 2);
    assert!(matches!(&steps[0], OutputStep::FifoSetPath(p) if p == "/tmp/rockbox.fifo"));
    assert!(matches!(steps[1], OutputStep::SwitchSink(Sink::Fifo)));
}

#[test]
fn airplay_receiver_list_wins_over_the_single_host() {
    let mut s = with_output("airplay");
    s.airplay_host = Some("10.0.0.9".to_string());
    s.airplay_receivers = Some(vec![
        AirplayReceiver { host: "10.0.0.1".to_string(), port: None },
        AirplayReceiver { host: "10.0.0.2".to_string(), port: Some(7000) },
    ]);
    let steps = startup_output_steps(&s);
    assert_eq!(steps.len(), 4);
    assert!(matches!(steps[0], OutputStep::AirplayClearReceivers));
    assert!(matches!(&steps[1], OutputStep::AirplayAddReceiver(h, 5000) if h == "10.0.0.1"));
    assert!(matches!(&steps[2], OutputStep::AirplayAddReceiver(h, 7000) if h == "10.0.0.2"));
    assert!(matches!(steps[3], OutputStep::SwitchSink(Sink::Airplay)));

    s.airplay_receivers = None;
    let steps = startup_output_steps(&s);
    assert_eq!(steps.len(), 3);
    assert!(matches!(&steps[1], OutputStep::AirplaySetHost(h, 5000) if h == "10.0.0.9"));

    s.airplay_host = None;
    let steps = startup_output_steps(&s);
    assert_eq!(steps.len(), 1, "no receiver: cleared, not switched");
}

#[test]
fn upnp_and_chromecast_defaults() {
    let steps = startup_output_steps(&with_output("upnp"));
    assert_eq!(steps.len(), 3);
    assert!(matches!(steps[0], OutputStep::UpnpSetHttpPort(7879)));
    assert!(matches!(steps[1], OutputStep::UpnpClearRendererUrl));
    let steps = startup_output_steps(&with_output("chromecast"));
    assert_eq!(steps.len(), 2);
    assert!(matches!(steps[0], OutputStep::ChromecastSetHttpPort(7881)));
    assert!(matches!(steps[1], OutputStep::SwitchSink(Sink::Chromecast)));
    assert!(startup_output_steps(&with_output("snapcast_tcp")).is_empty());
}

#[test]
fn connect_finds_listed_or_current_device() {
    let devices = vec![device("a", "airplay", "1.1.1.1", 7000), device("b", "fifo", "", 0)];
    let current = Some(device("c", "chromecast", "2.2.2.2", 8009));
    assert_eq!(find_device(&devices, &current, "b").unwrap().service, "fifo");
    assert_eq!(find_device(&devices, &current, "c").unwrap().ip, "2.2.2.2");
    assert!(find_device(&devices, &current, "z").is_none());
    assert!(needs_chromecast_teardown(&current, &devices[0]));
    assert!(!needs_chromecast_teardown(&None, &devices[0]));
}

#[test]
fn connecting_to_airplay_is_restored_at_startup() {
    let mut s = empty_settings();
    let d = device("a", "airplay", "1.1.1.1", 7000);
    let steps = connect_output(&mut s, &d).unwrap();
    assert_eq!(s.audio_output.as_deref(), Some("airplay"));
    assert_eq!((s.airplay_host.as_deref(), s.airplay_port), (Some("1.1.1.1"), Some(7000)));
    assert_eq!(steps.len(), 3);
    assert!(matches!(&steps[1], OutputStep::AirplaySetHost(h, 7000) if h == "1.1.1.1"));
    let again = startup_output_steps(&s);
    assert_eq!(again.len(), steps.len());
    assert!(matches!(&again[1], OutputStep::AirplaySetHost(h, 7000) if h == "1.1.1.1"));
}

#[test]
fn connecting_to_snapcast_and_cmaf() {
    let mut s = empty_settings();
    let steps = connect_output(&mut s, &device("s", "snapcast", "3.3.3.3", 4953)).unwrap();
    assert_eq!(s.audio_output.as_deref(), Some("snapcast_tcp"));
    assert_eq!(steps.len(), 3);
    let mut s = empty_settings();
    let steps = connect_output(&mut s, &device("m", "cmaf", "", 0)).unwrap();
    assert_eq!((s.cmaf_http_port, s.cmaf_bitrate), (Some(7882), Some(128000)));
    assert!(matches!(steps[1], OutputStep::CmafSetBitrate(128000)));
    assert!(matches!(steps[3], OutputStep::SwitchSink(Sink::Cmaf)));
}

#[test]
fn unknown_service_changes_nothing() {
    let mut s = with_output("fifo");
    assert!(connect_output(&mut s, &device("x", "laser", "", 0)).is_none());
    assert_eq!(s.audio_output.as_deref(), Some("fifo"));
}

#[test]
fn disconnect_returns_to_builtin() {
    let mut s = with_output("chromecast");
    let current = Some(device("c", "chromecast", "2.2.2.2", 8009));
    let (teardown, steps) = disconnect_output(&mut s, &current);
    assert!(teardown);
    assert!(matches!(steps[..], [OutputStep::SwitchSink(Sink::Builtin)]));
    assert_eq!(s.audio_output.as_deref(), Some("builtin"));
    assert!(startup_output_steps(&s).is_empty());
}

#[test]
fn only_the_named_device_is_current() {
    let mut devices = vec![device("builtin", "builtin", "", 0), device("a", "airplay", "1.1.1.1", 7000)];
    devices[1].is_current_device = true;
    mark_current(&mut devices, "builtin");
    assert!(devices[0].is_current_device);
    assert!(!devices[1].is_current_device);
}

fn slim(id: &str) -> SlimClient {
    SlimClient { id: id.to_string(), name: format!("Player {}", id), ip: "10.0.0.7".to_string() }
}

#[test]
fn the_virtual_devices() {
    let v = virtual_devices();
    assert_eq!(v.len(), 2);
    assert_eq!((v[0].id.as_str(), v[0].name.as_str(), v[0].ip.as_str()), ("builtin", "Rockbox (Built-in)", "127.0.0.1"));
    assert_eq!((v[1].service.as_str(), v[1].name.as_str(), v[1].port), ("fifo", "Snapcast (FIFO)", 0));
}

#[test]
fn renderer_ids_and_discovered_devices() {
    assert_eq!(upnp_device_id("uuid:1", "http://r/desc.xml"), "uuid:1");
    assert_eq!(upnp_device_id("", ""), "d41d8cd98f00b204e9800998ecf8427e");
    let mut v = virtual_devices();
    assert!(!add_device(&mut v, device("builtin", "builtin", "", 0)));
    assert!(add_device(&mut v, device("cc", "chromecast", "10.0.0.9", 8009)));
    assert_eq!(v.len(), 3);
    assert!(has_device(&v, "cc"));
}

#[test]
fn squeezelite_devices_follow_their_clients() {
    let mut v = virtual_devices();
    sync_squeezelite(&mut v, &[slim("a"), slim("b"), slim("a")]);
    let ids: Vec<&str> = v.iter().map(|d| d.id.as_str()).collect();
    assert_eq!(ids, vec!["builtin", "fifo", "a", "b"]);
    assert_eq!((v[2].port, v[2].service.as_str(), v[2].host.as_str()), (3483, "squeezelite", "10.0.0.7"));
    sync_squeezelite(&mut v, &[slim("b")]);
    let ids: Vec<&str> = v.iter().map(|d| d.id.as_str()).collect();
    assert_eq!(ids, vec!["builtin", "fifo", "b"]);
    sync_squeezelite(&mut v, &[]);
    assert_eq!(v.len(), 2);
}

#[test]
fn a_connect_request_as_a_whole() {
    let mut devices = vec![device("builtin", "builtin", "", 0), device("cc", "chromecast", "10.0.0.9", 8009)];
    devices[0].is_current_device = true;
    let mut current = Some(device("builtin", "builtin", "", 0));
    let mut settings = empty_settings();

    let (o, acts) = connect_request(&mut devices, &mut current, &mut settings, "zz");
    assert_eq!(o, ConnectOutcome::NotFound);
    assert!(acts.is_empty());
    assert!(devices[0].is_current_device);

    let (o, acts) = connect_request(&mut devices, &mut current, &mut settings, "cc");
    assert_eq!(o, ConnectOutcome::Connected);
    assert!(matches!(acts[0], ConnectAction::ReleasePlayer));
    assert!(matches!(acts[1], ConnectAction::ChromecastTeardown));
    assert!(matches!(acts[2], ConnectAction::Output(OutputStep::ChromecastSetHttpPort(7881))));
    assert!(matches!(acts[acts.len() - 2], ConnectAction::ResumeFirmware));
    assert!(matches!(acts[acts.len() - 1], ConnectAction::SaveSettings));
    assert_eq!(acts.len(), 2 + 4 + 2);
    assert_eq!(current.as_ref().unwrap().id, "cc");
    assert!(!devices[0].is_current_device && devices[1].is_current_device);
    assert_eq!(settings.audio_output.as_deref(), Some("chromecast"));

    devices.push(device("x", "laser", "", 0));
    let (o, acts) = connect_request(&mut devices, &mut current, &mut settings, "x");
    assert_eq!(o, ConnectOutcome::UnknownService);
    assert_eq!(acts.len(), 2, "player released, chromecast torn down");
    assert_eq!(current.as_ref().unwrap().id, "cc");
    assert_eq!(settings.audio_output.as_deref(), Some("chromecast"));
}
