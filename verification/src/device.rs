//! Device configuration as data: the driver argument string handed to
//! the hardware abstraction when the device is opened, and the exact
//! ordered command sequence a selected profile asks the device layer to
//! perform.

use vstd::prelude::*;
use crate::sdrconfig::{GainSetting, SdrEntry, SdrSetting};

verus! {

/// The fixed Mode S receive center frequency, in hertz.
pub const MODE_S_FREQUENCY_HZ: u64 = 1_090_000_000;

/// The fixed Mode S receive sample rate, in hertz.
pub const MODE_S_SAMPLE_RATE_HZ: u64 = 2_400_000;

/// One write against the device, in the order the plan gives. Gain
/// values travel as the IEEE-754 bit pattern of the configured 64-bit
/// value; frequencies and rates as integer hertz.
#[derive(Debug, PartialEq)]
pub enum DeviceCommand {
    SetGain { key: String, value_bits: u64 },
    WriteSetting { key: String, value: String },
    SetAntenna { name: String },
    SetFrequency { hz: u64 },
    SetSampleRate { hz: u64 },
}

/// The gain writes of a profile, in the profile's order.
pub open spec fn gain_commands(gains: Seq<GainSetting>) -> Seq<DeviceCommand> {
    gains.map_values(
        |g: GainSetting| DeviceCommand::SetGain { key: g.key, value_bits: g.value_bits },
    )
}

/// The setting writes of a profile, in the profile's order.
pub open spec fn setting_commands(settings: Seq<SdrSetting>) -> Seq<DeviceCommand> {
    settings.map_values(
        |s: SdrSetting| DeviceCommand::WriteSetting { key: s.key, value: s.value },
    )
}

/// Everything a selected profile asks of the device, in the fixed
/// order: every gain, then every setting, then the antenna if the
/// profile names one, then the hard-coded Mode S center frequency and
/// sample rate.
pub open spec fn plan_of(entry: SdrEntry) -> Seq<DeviceCommand> {
    gain_commands(entry.gain@) + (match entry.setting {
        Some(settings) => setting_commands(settings@),
        None => Seq::<DeviceCommand>::empty(),
    }) + (match entry.antenna {
        Some(name) => seq![DeviceCommand::SetAntenna { name }],
        None => Seq::<DeviceCommand>::empty(),
    }) + seq![
        DeviceCommand::SetFrequency { hz: MODE_S_FREQUENCY_HZ as u64 },
        DeviceCommand::SetSampleRate { hz: MODE_S_SAMPLE_RATE_HZ as u64 },
    ]
}

/// Lays out the ordered command sequence for a selected profile: gains,
/// then settings, then antenna, then the fixed frequency and sample
/// rate.
pub fn device_command_plan(entry: &SdrEntry) -> (plan: Vec<DeviceCommand>)
    ensures
        plan@ == plan_of(*entry),
{
    let mut plan: Vec<DeviceCommand> = Vec::new();
    let mut i: usize = 0;
    while i < entry.gain.len()
        invariant
            0 <= i <= entry.gain@.len(),
            plan@ =~= gain_commands(entry.gain@.subrange(0, i as int)),
        decreases entry.gain@.len() - i,
    {
        plan.push(
            DeviceCommand::SetGain {
                key: entry.gain[i].key.clone(),
                value_bits: entry.gain[i].value_bits,
            },
        );
        proof {
            assert(plan@ =~= gain_commands(entry.gain@.subrange(0, i + 1)));
        }
        i = i + 1;
    }
    proof {
        assert(entry.gain@.subrange(0, entry.gain@.len() as int) =~= entry.gain@);
    }
    match &entry.setting {
        Some(settings) => {
            let mut k: usize = 0;
            while k < settings.len()
                invariant
                    0 <= k <= settings@.len(),
                    plan@ =~= gain_commands(entry.gain@) + setting_commands(
                        settings@.subrange(0, k as int),
                    ),
                decreases settings@.len() - k,
            {
                plan.push(
                    DeviceCommand::WriteSetting {
                        key: settings[k].key.clone(),
                        value: settings[k].value.clone(),
                    },
                );
                proof {
                    assert(plan@ =~= gain_commands(entry.gain@) + setting_commands(
                        settings@.subrange(0, k + 1),
                    ));
                }
                k = k + 1;
            }
            proof {
                assert(settings@.subrange(0, settings@.len() as int) =~= settings@);
            }
        },
        None => {},
    }
    match &entry.antenna {
        Some(name) => {
            plan.push(DeviceCommand::SetAntenna { name: name.clone() });
        },
        None => {},
    }
    plan.push(DeviceCommand::SetFrequency { hz: MODE_S_FREQUENCY_HZ });
    plan.push(DeviceCommand::SetSampleRate { hz: MODE_S_SAMPLE_RATE_HZ });
    proof {
        assert(plan@ =~= plan_of(*entry));
    }
    plan
}

/// The driver argument string the device is opened with:
/// `driver=<name>`, with each extra fragment appended after a comma.
pub open spec fn driver_args_of(driver: Seq<char>, extras: Seq<Seq<char>>) -> Seq<char>
    decreases extras.len(),
{
    if extras.len() == 0 {
        "driver="@ + driver
    } else {
        driver_args_of(driver, extras.drop_last()) + ","@ + extras.last()
    }
}

/// Builds the driver argument string from the driver name and the extra
/// key=value fragments given at startup.
pub fn build_driver_args(driver: &String, extras: &Vec<String>) -> (args: String)
    ensures
        args@ == driver_args_of(driver@, extras.deep_view()),
{
    let mut args = String::new();
    args.append("driver=");
    args.append(driver.as_str());
    proof {
        assert(args@ =~= driver_args_of(driver@, extras.deep_view().subrange(0, 0)));
    }
    let mut i: usize = 0;
    while i < extras.len()
        invariant
            0 <= i <= extras@.len(),
            args@ == driver_args_of(driver@, extras.deep_view().subrange(0, i as int)),
        decreases extras@.len() - i,
    {
        args.append(",");
        args.append(extras[i].as_str());
        proof {
            let dv = extras.deep_view();
            assert(dv.subrange(0, i + 1).drop_last() =~= dv.subrange(0, i as int));
            assert(dv.subrange(0, i + 1).last() == dv[i as int]);
            assert(args@ =~= driver_args_of(driver@, dv.subrange(0, i + 1)));
        }
        i = i + 1;
    }
    proof {
        assert(extras.deep_view().subrange(0, extras.deep_view().len() as int) =~= extras.deep_view());
    }
    args
}

} // verus!
