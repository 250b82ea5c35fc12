use dump1090_rs::sdrconfig::{GainSetting, SdrConfig, SdrEntry, SdrSetting};
use dump1090_rs::device::{
    build_driver_args, device_command_plan, DeviceCommand, MODE_S_FREQUENCY_HZ,
    MODE_S_SAMPLE_RATE_HZ,
};

fn entry(driver: &str) -> SdrEntry {
    SdrEntry {
        driver: driver.to_string(),
        channel: 0,
        gain: vec![],
        setting: None,
        antenna: None,
    }
}

#[test]
fn override_entries_go_in_front() {
    let mut config = SdrConfig::new(vec![entry("rtlsdr"), entry("hackrf")]);
    config.merge_override(vec![entry("rtlsdr"), entry("airspy")]);
    // each override entry is put in front of everything already there,
    // so the overrides end up first, in reverse of their own order
    let drivers: Vec<&str> = config.sdrs.iter().map(|e| e.driver.as_str()).collect();
    assert_eq!(drivers, vec!["airspy", "rtlsdr", "rtlsdr", "hackrf"]);
}

#[test]
fn merge_with_no_overrides_changes_nothing() {
    let mut config = SdrConfig::new(vec![entry("rtlsdr")]);
    config.merge_override(vec![]);
    assert_eq!(config.sdrs.len(), 1);
    assert_eq!(config.sdrs[0].driver, "rtlsdr");
}

#[test]
fn find_driver_prefers_the_override() {
    let mut default_rtl = entry("rtlsdr");
    default_rtl.channel = 0;
    let mut config = SdrConfig::new(vec![default_rtl]);
    let mut override_rtl = entry("rtlsdr");
    override_rtl.channel = 7;
    config.merge_override(vec![override_rtl]);
    let i = config.find_driver(&"rtlsdr".to_string()).expect("driver is configured");
    assert_eq!(i, 0);
    assert_eq!(config.sdrs[i].channel, 7);
}

#[test]
fn find_driver_first_match_and_miss() {
    let config = SdrConfig::new(vec![entry("hackrf"), entry("rtlsdr"), entry("rtlsdr")]);
    assert_eq!(config.find_driver(&"rtlsdr".to_string()), Some(1));
    assert_eq!(config.find_driver(&"hackrf".to_string()), Some(0));
    assert_eq!(config.find_driver(&"bladerf".to_string()), None);
}

#[test]
fn driver_args_without_extras() {
    let args = build_driver_args(&"rtlsdr".to_string(), &vec![]);
    assert_eq!(args, "driver=rtlsdr");
}

#[test]
fn driver_args_with_extras() {
    let extras = vec!["serial=00000001".to_string(), "biastee=true".to_string()];
    let args = build_driver_args(&"rtlsdr".to_string(), &extras);
    assert_eq!(args, "driver=rtlsdr,serial=00000001,biastee=true");
}

#[test]
fn command_plan_order() {
    let entry = SdrEntry {
        driver: "rtlsdr".to_string(),
        channel: 0,
        gain: vec![
            GainSetting { key: "LNA".to_string(), value_bits: 20.0f64.to_bits() },
            GainSetting { key: "VGA".to_string(), value_bits: 12.5f64.to_bits() },
        ],
        setting: Some(vec![SdrSetting {
            key: "biastee".to_string(),
            value: "true".to_string(),
        }]),
        antenna: Some("RX".to_string()),
    };
    let plan = device_command_plan(&entry);
    assert_eq!(
        plan,
        vec![
            DeviceCommand::SetGain { key: "LNA".to_string(), value_bits: 20.0f64.to_bits() },
            DeviceCommand::SetGain { key: "VGA".to_string(), value_bits: 12.5f64.to_bits() },
            DeviceCommand::WriteSetting {
                key: "biastee".to_string(),
                value: "true".to_string()
            },
            DeviceCommand::SetAntenna { name: "RX".to_string() },
            DeviceCommand::SetFrequency { hz: 1_090_000_000 },
            DeviceCommand::SetSampleRate { hz: 2_400_000 },
        ]
    );
    // the gain value travels as the exact bit pattern of the configured value
    match &plan[0] {
        DeviceCommand::SetGain { value_bits, .. } => {
            assert_eq!(f64::from_bits(*value_bits), 20.0);
        }
        other => panic!("expected a gain write, got {other:?}"),
    }
}

#[test]
fn bare_plan_still_fixes_frequency_and_rate() {
    let plan = device_command_plan(&entry("rtlsdr"));
    assert_eq!(
        plan,
        vec![
            DeviceCommand::SetFrequency { hz: MODE_S_FREQUENCY_HZ },
            DeviceCommand::SetSampleRate { hz: MODE_S_SAMPLE_RATE_HZ },
        ]
    );
    assert_eq!(MODE_S_FREQUENCY_HZ, 1_090_000_000);
    assert_eq!(MODE_S_SAMPLE_RATE_HZ, 2_400_000);
}
