//! A test of the kernel module without any VM: one device with a sensor of
//! each kind.

use crate::ctl::cli::{CtlError, CtlFault};
use crate::host::kernel::{VsbSchema, VsbSensorValue, VsbValues};
use crate::host::runtime::{is_schema_of, register, Registration};
use crate::host::state::{default_hwmon_name, is_values_of, make_hwmon_name};
use crate::number::{at_most, parse_u32, parsed_nat};
use crate::protocol::{descriptor_views, DescriptorView, SensorDescriptor, SensorKind};
use crate::text::{same, texts};
use vstd::prelude::*;

verus! {

/// The VM that the test uses, unless the command line says otherwise.
pub const DEFAULT_SMOKE_VMID: u32 = 9000;

/// What the test does.
#[derive(Debug)]
pub struct SmokePlan {
    pub vmid: u32,
    pub device: String,
    /// Whether the device stays behind.
    pub keep: bool,
}

/// What the test does, with texts as sequences of characters.
#[verifier::ext_equal]
pub struct SmokeView {
    pub vmid: u32,
    pub device: Seq<char>,
    pub keep: bool,
}

impl View for SmokePlan {
    type V = SmokeView;

    open spec fn view(&self) -> SmokeView {
        SmokeView { vmid: self.vmid, device: self.device@, keep: self.keep }
    }
}

/// What the test does by default.
pub open spec fn default_smoke() -> SmokeView {
    SmokeView { vmid: DEFAULT_SMOKE_VMID, device: "/dev/vfio-sensor-bridge"@, keep: false }
}

/// What arguments ask the test to do, where `plan` is what the arguments
/// before them came to.
pub open spec fn smoke_options(args: Seq<Seq<char>>, plan: SmokeView) -> Result<
    SmokeView,
    CtlFault,
>
    decreases args.len(),
{
    if args.len() == 0 {
        Ok(plan)
    } else if args[0] == "--vmid"@ {
        if args.len() < 2 {
            Err(CtlFault::MissingSmokeVmid)
        } else {
            match at_most(parsed_nat(args[1]), u32::MAX as nat) {
                None => Err(CtlFault::InvalidSmokeVmid),
                Some(vmid) => smoke_options(
                    args.skip(2),
                    SmokeView { vmid: vmid as u32, ..plan },
                ),
            }
        }
    } else if args[0] == "--device"@ {
        if args.len() < 2 {
            Err(CtlFault::MissingSmokeDevice)
        } else {
            smoke_options(args.skip(2), SmokeView { device: args[1], ..plan })
        }
    } else if args[0] == "--keep"@ {
        smoke_options(args.skip(1), SmokeView { keep: true, ..plan })
    } else {
        Err(CtlFault::UnknownSmokeArgument(args[0]))
    }
}

/// What arguments ask the test to do.
pub fn run(args: &[String]) -> (result: Result<SmokePlan, CtlError>)
    ensures
        (match result {
            Ok(plan) => Ok::<SmokeView, CtlFault>(plan@),
            Err(error) => Err(error@),
        }) == smoke_options(texts(args@), default_smoke()),
{
    let ghost all = texts(args@);
    let mut plan = SmokePlan {
        vmid: DEFAULT_SMOKE_VMID,
        device: "/dev/vfio-sensor-bridge".to_string(),
        keep: false,
    };
    let mut i: usize = 0;
    assert(all.skip(0) =~= all);
    while i < args.len()
        invariant
            i <= args@.len(),
            all == texts(args@),
            smoke_options(all, default_smoke()) == smoke_options(all.skip(i as int), plan@),
        decreases args@.len() - i,
    {
        let ghost tail = all.skip(i as int);
        assert(tail[0] == args@[i as int]@);
        assert(tail.skip(1) =~= all.skip(i as int + 1));
        if i + 1 < args.len() {
            assert(tail[1] == args@[i as int + 1]@);
            assert(tail.skip(2) =~= all.skip(i as int + 2));
        }
        if same(&args[i], "--vmid") {
            if i + 1 >= args.len() {
                return Err(CtlError::MissingSmokeVmid);
            }
            match parse_u32(&args[i + 1]) {
                Some(vmid) => {
                    plan.vmid = vmid;
                },
                None => {
                    return Err(CtlError::InvalidSmokeVmid);
                },
            }
            i = i + 2;
        } else if same(&args[i], "--device") {
            if i + 1 >= args.len() {
                return Err(CtlError::MissingSmokeDevice);
            }
            plan.device = args[i + 1].clone();
            i = i + 2;
        } else if same(&args[i], "--keep") {
            plan.keep = true;
            i = i + 1;
        } else {
            return Err(CtlError::UnknownSmokeArgument(args[i].clone()));
        }
    }
    Ok(plan)
}

/// A sensor of the test.
pub open spec fn smoke_sensor(kind: SensorKind, label: Seq<char>) -> DescriptorView {
    DescriptorView { id: label, kind, label, persistent: false, default_value: None }
}

/// The sensors of the test: one of each kind.
pub open spec fn smoke_sensors() -> Seq<DescriptorView> {
    seq![
        smoke_sensor(SensorKind::Temperature, "smoke_temp"@),
        smoke_sensor(SensorKind::Fan, "smoke_fan"@),
        smoke_sensor(SensorKind::Voltage, "smoke_voltage"@),
        smoke_sensor(SensorKind::Current, "smoke_current"@),
        smoke_sensor(SensorKind::Power, "smoke_power"@),
    ]
}

/// The readings of the test, each under the number of its sensor.
pub open spec fn smoke_readings() -> Seq<(u32, i64)> {
    seq![
        (1u32, 42000i64),
        (2u32, 1500i64),
        (3u32, 12000i64),
        (4u32, 2500i64),
        (5u32, 75000000i64),
    ]
}

fn describe(kind: SensorKind, label: &str) -> (sensor: SensorDescriptor)
    ensures
        sensor@ == smoke_sensor(kind, label@),
{
    SensorDescriptor {
        id: label.to_string(),
        kind,
        label: label.to_string(),
        persistent: false,
        default_value: None,
    }
}

/// What the kernel gets as the sensors of the test. The device gets its default
/// name.
pub fn smoke_schema(vmid: u32) -> (schema: VsbSchema)
    ensures
        is_schema_of(schema, vmid, None, smoke_sensors()),
{
    let mut sensors: Vec<SensorDescriptor> = Vec::new();
    sensors.push(describe(SensorKind::Temperature, "smoke_temp"));
    sensors.push(describe(SensorKind::Fan, "smoke_fan"));
    sensors.push(describe(SensorKind::Voltage, "smoke_voltage"));
    sensors.push(describe(SensorKind::Current, "smoke_current"));
    sensors.push(describe(SensorKind::Power, "smoke_power"));
    assert(descriptor_views(sensors@) =~= smoke_sensors());
    let registration = register(vmid, None, &sensors);
    let Registration { schema, .. } = registration;
    schema
}

/// What the kernel gets as the readings of the test.
pub fn smoke_values(vmid: u32) -> (values: VsbValues)
    ensures
        is_values_of(values, vmid, smoke_readings()),
{
    let mut values = VsbValues::default();
    values.vmid = vmid;
    values.value_count = 5;
    values.values[0] = VsbSensorValue { id: 1, reserved: 0, value: 42000 };
    values.values[1] = VsbSensorValue { id: 2, reserved: 0, value: 1500 };
    values.values[2] = VsbSensorValue { id: 3, reserved: 0, value: 12000 };
    values.values[3] = VsbSensorValue { id: 4, reserved: 0, value: 2500 };
    values.values[4] = VsbSensorValue { id: 5, reserved: 0, value: 75000000 };
    values
}

/// The files in which the readings of the test show up.
pub fn smoke_files() -> (files: Vec<String>)
    ensures
        texts(files@) == seq![
            "temp1_input"@,
            "fan1_input"@,
            "in0_input"@,
            "curr1_input"@,
            "power1_input"@,
        ],
{
    let mut files: Vec<String> = Vec::new();
    files.push("temp1_input".to_string());
    files.push("fan1_input".to_string());
    files.push("in0_input".to_string());
    files.push("curr1_input".to_string());
    files.push("power1_input".to_string());
    assert(texts(files@) =~= seq![
        "temp1_input"@,
        "fan1_input"@,
        "in0_input"@,
        "curr1_input"@,
        "power1_input"@,
    ]);
    files
}

/// The name of the device of the test.
pub fn smoke_hwmon_name(vmid: u32) -> (name: String)
    ensures
        name@ == default_hwmon_name(vmid),
{
    make_hwmon_name(vmid)
}

} // verus!
