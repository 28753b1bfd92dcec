//! Metric and capability contracts.

use vstd::prelude::*;

use crate::domain::form::{Form, Shape, Surface, SurfaceSet};
use crate::text::{owned, str_eq};

verus! {

/// Closed set of known metrics.
#[derive(Debug, Clone, Copy, PartialEq, Eq, Hash, Ord, PartialOrd, Structural)]
pub enum Metric {
    /// CPU usage percentage.
    CpuUsage,
    /// Memory usage percentage.
    MemUsage,
    /// Swap usage percentage.
    SwapUsage,
    /// CPU frequency.
    CpuFreq,
    /// CPU turbo state.
    CpuTurbo,
    /// CPU temperature.
    CpuTemp,
    /// Disk temperatures.
    HdTemp,
    /// Disk usage percentage with auxiliary space data.
    DiskUsage,
    /// Disk SMART health.
    DiskSmart,
    /// NVIDIA GPU temperature.
    GpuNvidiaTemp,
    /// NVIDIA GPU usage.
    GpuNvidiaUsage,
    /// NVIDIA GPU memory usage.
    GpuNvidiaMemUsage,
    /// NVIDIA GPU decoder usage.
    GpuNvidiaDecoderUsage,
    /// NVIDIA GPU fan speed.
    GpuNvidiaFanSpeed,
    /// Intel GPU frequency.
    GpuIntelFreq,
    /// Intel GPU usage.
    GpuIntelUsage,
    /// Intel GPU decoder usage.
    GpuIntelDecoderUsage,
    /// Screen brightness percentage.
    ScreenBrightness,
    /// Fan speeds.
    FanSpeed,
    /// System battery state.
    BatterySystem,
    /// Mouse battery state.
    BatteryMouse,
    /// Keyboard battery state.
    BatteryKeyboard,
    /// Network throughput.
    NetSpeed,
    /// Disk throughput.
    DiskIo,
    /// Active network device name.
    NetDevice,
    /// Active network IP address.
    NetIp,
    /// Combined network device and IP.
    NetDeviceIp,
    /// Wi-Fi SSID.
    WifiSsid,
    /// Wi-Fi signal strength.
    WifiSignal,
    /// Combined Wi-Fi SSID and signal.
    WifiSsidSignal,
    /// System uptime.
    Uptime,
    /// System load average.
    LoadAverage,
    /// Top process row.
    TopProcess,
    /// System updates status.
    SystemUpdates,
    /// External server check status.
    ServerCheck,
}

/// Capability switches used to request hardware or command data.
#[derive(Debug, Clone, Copy, PartialEq, Eq, Hash, Ord, PartialOrd, Structural)]
pub enum Capability {
    /// Swap usage support.
    SwapUsage,
    /// CPU frequency support.
    CpuFrequency,
    /// CPU turbo support.
    CpuTurbo,
    /// CPU temperature support.
    CpuTemperature,
    /// Disk temperature support.
    DiskTemperature,
    /// Disk usage support.
    DiskUsage,
    /// Disk SMART support.
    DiskSmart,
    /// NVIDIA GPU support.
    GpuNvidia,
    /// Intel GPU frequency support.
    GpuIntelFrequency,
    /// Intel GPU usage support.
    GpuIntelUsage,
    /// Intel GPU decoder support.
    GpuIntelDecoder,
    /// Screen brightness support.
    ScreenBrightness,
    /// Fan speed support.
    FanSpeed,
    /// System battery support.
    BatterySystem,
    /// Mouse battery support.
    BatteryMouse,
    /// Keyboard battery support.
    BatteryKeyboard,
    /// Network throughput support.
    NetworkSpeed,
    /// Disk throughput support.
    DiskIo,
    /// Network identity support.
    NetworkInfo,
    /// Uptime support.
    Uptime,
    /// Load average support.
    LoadAverage,
    /// Top-process support.
    TopProcess,
    /// System updates support.
    SystemUpdates,
    /// External server check support.
    ServerCheck,
}

/// Metadata for a metric contract.
#[derive(Debug, Clone, PartialEq, Eq)]
pub struct MetricSpec {
    /// Metric identity.
    pub metric: Metric,
    /// Capabilities needed to collect the metric.
    pub capabilities: Vec<Capability>,
    /// Generic forms accepted by the metric.
    pub generic_forms: Vec<Form>,
    /// Metric-level admitted surfaces before form intersection.
    pub surfaces: SurfaceSet,
    /// Intrinsic shape for metrics that do not accept generic forms.
    pub intrinsic_shape: Option<Shape>,
}

fn historied_forms() -> (v: Vec<Form>)
    ensures
        v@ == seq![Form::Value, Form::Bar, Form::Spark, Form::Braille, Form::SparkValue, Form::BrailleValue, Form::BarSpark, Form::BarBraille],
{
    let v = vec![Form::Value, Form::Bar, Form::Spark, Form::Braille, Form::SparkValue, Form::BrailleValue, Form::BarSpark, Form::BarBraille];
    assert(v@ =~= seq![Form::Value, Form::Bar, Form::Spark, Form::Braille, Form::SparkValue, Form::BrailleValue, Form::BarSpark, Form::BarBraille]);
    v
}

fn value_only() -> (v: Vec<Form>)
    ensures
        v@ == seq![Form::Value],
{
    let v = vec![Form::Value];
    assert(v@ =~= seq![Form::Value]);
    v
}

fn value_or_pair() -> (v: Vec<Form>)
    ensures
        v@ == seq![Form::Value, Form::Pair],
{
    let v = vec![Form::Value, Form::Pair];
    assert(v@ =~= seq![Form::Value, Form::Pair]);
    v
}

fn pair_only() -> (v: Vec<Form>)
    ensures
        v@ == seq![Form::Pair],
{
    let v = vec![Form::Pair];
    assert(v@ =~= seq![Form::Pair]);
    v
}

/// Every metric, in the deterministic registry order.
pub open spec fn all_metrics() -> Seq<Metric> {
    seq![
        Metric::CpuUsage,
        Metric::MemUsage,
        Metric::SwapUsage,
        Metric::CpuFreq,
        Metric::CpuTurbo,
        Metric::CpuTemp,
        Metric::HdTemp,
        Metric::DiskUsage,
        Metric::DiskSmart,
        Metric::GpuNvidiaTemp,
        Metric::GpuNvidiaUsage,
        Metric::GpuNvidiaMemUsage,
        Metric::GpuNvidiaDecoderUsage,
        Metric::GpuNvidiaFanSpeed,
        Metric::GpuIntelFreq,
        Metric::GpuIntelUsage,
        Metric::GpuIntelDecoderUsage,
        Metric::ScreenBrightness,
        Metric::FanSpeed,
        Metric::BatterySystem,
        Metric::BatteryMouse,
        Metric::BatteryKeyboard,
        Metric::NetSpeed,
        Metric::DiskIo,
        Metric::NetDevice,
        Metric::NetIp,
        Metric::NetDeviceIp,
        Metric::WifiSsid,
        Metric::WifiSignal,
        Metric::WifiSsidSignal,
        Metric::Uptime,
        Metric::LoadAverage,
        Metric::TopProcess,
        Metric::SystemUpdates,
        Metric::ServerCheck,
    ]
}

impl Metric {
    /// The stable snake_case token used by config and CSS.
    pub open spec fn token(self) -> Seq<char> {
        match self {
            Metric::CpuUsage => "cpu_usage"@,
            Metric::MemUsage => "mem_usage"@,
            Metric::SwapUsage => "swap_usage"@,
            Metric::CpuFreq => "cpu_freq"@,
            Metric::CpuTurbo => "cpu_turbo"@,
            Metric::CpuTemp => "cpu_temp"@,
            Metric::HdTemp => "hd_temp"@,
            Metric::DiskUsage => "disk_usage"@,
            Metric::DiskSmart => "disk_smart"@,
            Metric::GpuNvidiaTemp => "gpu_nvidia_temp"@,
            Metric::GpuNvidiaUsage => "gpu_nvidia_usage"@,
            Metric::GpuNvidiaMemUsage => "gpu_nvidia_mem_usage"@,
            Metric::GpuNvidiaDecoderUsage => "gpu_nvidia_dec_usage"@,
            Metric::GpuNvidiaFanSpeed => "gpu_nvidia_fan_speed"@,
            Metric::GpuIntelFreq => "gpu_intel_freq"@,
            Metric::GpuIntelUsage => "gpu_intel_usage"@,
            Metric::GpuIntelDecoderUsage => "gpu_intel_dec_usage"@,
            Metric::ScreenBrightness => "screen_brightness"@,
            Metric::FanSpeed => "fan_speed"@,
            Metric::BatterySystem => "battery_sys"@,
            Metric::BatteryMouse => "battery_mouse"@,
            Metric::BatteryKeyboard => "battery_kbd"@,
            Metric::NetSpeed => "net_speed"@,
            Metric::DiskIo => "disk_io"@,
            Metric::NetDevice => "net_device"@,
            Metric::NetIp => "net_ip"@,
            Metric::NetDeviceIp => "net_device_ip"@,
            Metric::WifiSsid => "wifi_ssid"@,
            Metric::WifiSignal => "wifi_signal"@,
            Metric::WifiSsidSignal => "wifi_ssid_signal"@,
            Metric::Uptime => "uptime"@,
            Metric::LoadAverage => "load_avg"@,
            Metric::TopProcess => "top_process"@,
            Metric::SystemUpdates => "system_updates"@,
            Metric::ServerCheck => "server_check"@,
        }
    }

    /// Capabilities needed to collect the metric.
    pub open spec fn needed_capabilities(self) -> Seq<Capability> {
        match self {
            Metric::CpuUsage => Seq::empty(),
            Metric::MemUsage => Seq::empty(),
            Metric::SwapUsage => seq![Capability::SwapUsage],
            Metric::CpuFreq => seq![Capability::CpuFrequency, Capability::CpuTurbo],
            Metric::CpuTurbo => seq![Capability::CpuTurbo],
            Metric::CpuTemp => seq![Capability::CpuTemperature],
            Metric::HdTemp => seq![Capability::DiskTemperature],
            Metric::DiskUsage => seq![Capability::DiskUsage],
            Metric::DiskSmart => seq![Capability::DiskSmart],
            Metric::GpuNvidiaTemp => seq![Capability::GpuNvidia],
            Metric::GpuNvidiaUsage => seq![Capability::GpuNvidia],
            Metric::GpuNvidiaMemUsage => seq![Capability::GpuNvidia],
            Metric::GpuNvidiaDecoderUsage => seq![Capability::GpuNvidia],
            Metric::GpuNvidiaFanSpeed => seq![Capability::GpuNvidia],
            Metric::GpuIntelFreq => seq![Capability::GpuIntelFrequency],
            Metric::GpuIntelUsage => seq![Capability::GpuIntelUsage],
            Metric::GpuIntelDecoderUsage => seq![Capability::GpuIntelDecoder],
            Metric::ScreenBrightness => seq![Capability::ScreenBrightness],
            Metric::FanSpeed => seq![Capability::FanSpeed],
            Metric::BatterySystem => seq![Capability::BatterySystem],
            Metric::BatteryMouse => seq![Capability::BatteryMouse],
            Metric::BatteryKeyboard => seq![Capability::BatteryKeyboard],
            Metric::NetSpeed => seq![Capability::NetworkSpeed],
            Metric::DiskIo => seq![Capability::DiskIo],
            Metric::NetDevice => seq![Capability::NetworkInfo],
            Metric::NetIp => seq![Capability::NetworkInfo],
            Metric::NetDeviceIp => seq![Capability::NetworkInfo],
            Metric::WifiSsid => seq![Capability::NetworkInfo],
            Metric::WifiSignal => seq![Capability::NetworkInfo],
            Metric::WifiSsidSignal => seq![Capability::NetworkInfo],
            Metric::Uptime => seq![Capability::Uptime],
            Metric::LoadAverage => seq![Capability::LoadAverage],
            Metric::TopProcess => seq![Capability::TopProcess],
            Metric::SystemUpdates => seq![Capability::SystemUpdates],
            Metric::ServerCheck => seq![Capability::ServerCheck],
        }
    }

    /// Generic forms the metric accepts, in registry order.
    pub open spec fn forms(self) -> Seq<Form> {
        match self {
            Metric::CpuUsage => seq![Form::Value, Form::Bar, Form::Spark, Form::Braille, Form::SparkValue, Form::BrailleValue, Form::BarSpark, Form::BarBraille],
            Metric::MemUsage => seq![Form::Value, Form::Bar, Form::Spark, Form::Braille, Form::SparkValue, Form::BrailleValue, Form::BarSpark, Form::BarBraille],
            Metric::SwapUsage => seq![Form::Value],
            Metric::CpuFreq => seq![Form::Value],
            Metric::CpuTurbo => seq![Form::Value],
            Metric::CpuTemp => seq![Form::Value],
            Metric::HdTemp => seq![Form::Value, Form::Pair],
            Metric::DiskUsage => seq![Form::Value],
            Metric::DiskSmart => seq![Form::Pair],
            Metric::GpuNvidiaTemp => seq![Form::Value],
            Metric::GpuNvidiaUsage => seq![Form::Value],
            Metric::GpuNvidiaMemUsage => seq![Form::Value],
            Metric::GpuNvidiaDecoderUsage => seq![Form::Value],
            Metric::GpuNvidiaFanSpeed => seq![Form::Value],
            Metric::GpuIntelFreq => seq![Form::Value],
            Metric::GpuIntelUsage => seq![Form::Value],
            Metric::GpuIntelDecoderUsage => seq![Form::Value],
            Metric::ScreenBrightness => seq![Form::Value],
            Metric::FanSpeed => seq![Form::Value, Form::Pair],
            Metric::BatterySystem => seq![Form::Value],
            Metric::BatteryMouse => seq![Form::Value],
            Metric::BatteryKeyboard => seq![Form::Value],
            Metric::NetSpeed => Seq::empty(),
            Metric::DiskIo => Seq::empty(),
            Metric::NetDevice => seq![Form::Value],
            Metric::NetIp => seq![Form::Value],
            Metric::NetDeviceIp => seq![Form::Value],
            Metric::WifiSsid => seq![Form::Value],
            Metric::WifiSignal => seq![Form::Value],
            Metric::WifiSsidSignal => seq![Form::Value],
            Metric::Uptime => seq![Form::Value],
            Metric::LoadAverage => seq![Form::Value],
            Metric::TopProcess => Seq::empty(),
            Metric::SystemUpdates => seq![Form::Value],
            Metric::ServerCheck => seq![Form::Value],
        }
    }

    /// Whether the metric itself (before form intersection) may render on `s`.
    pub open spec fn admits(self, s: Surface) -> bool {
        match self {
            Metric::DiskSmart => s == Surface::Tooltip,
            Metric::NetDevice => s == Surface::Tooltip,
            Metric::NetIp => s == Surface::Tooltip,
            Metric::NetDeviceIp => s == Surface::Tooltip,
            Metric::WifiSsid => s == Surface::Tooltip,
            Metric::WifiSsidSignal => s == Surface::Tooltip,
            Metric::Uptime => s == Surface::Tooltip,
            Metric::LoadAverage => s == Surface::Tooltip,
            Metric::TopProcess => s == Surface::Tooltip,
            _ => true,
        }
    }

    /// The intrinsic shape of the metrics that accept no generic form.
    pub open spec fn shape(self) -> Option<Shape> {
        match self {
            Metric::NetSpeed | Metric::DiskIo => Some(Shape::Duo),
            Metric::TopProcess => Some(Shape::TripleL),
            _ => None,
        }
    }

    /// Returns all currently known metrics in a deterministic order.
    pub fn all() -> (v: Vec<Metric>)
        ensures
            v@ == all_metrics(),
    {
        let v = vec![
            Metric::CpuUsage,
            Metric::MemUsage,
            Metric::SwapUsage,
            Metric::CpuFreq,
            Metric::CpuTurbo,
            Metric::CpuTemp,
            Metric::HdTemp,
            Metric::DiskUsage,
            Metric::DiskSmart,
            Metric::GpuNvidiaTemp,
            Metric::GpuNvidiaUsage,
            Metric::GpuNvidiaMemUsage,
            Metric::GpuNvidiaDecoderUsage,
            Metric::GpuNvidiaFanSpeed,
            Metric::GpuIntelFreq,
            Metric::GpuIntelUsage,
            Metric::GpuIntelDecoderUsage,
            Metric::ScreenBrightness,
            Metric::FanSpeed,
            Metric::BatterySystem,
            Metric::BatteryMouse,
            Metric::BatteryKeyboard,
            Metric::NetSpeed,
            Metric::DiskIo,
            Metric::NetDevice,
            Metric::NetIp,
            Metric::NetDeviceIp,
            Metric::WifiSsid,
            Metric::WifiSignal,
            Metric::WifiSsidSignal,
            Metric::Uptime,
            Metric::LoadAverage,
            Metric::TopProcess,
            Metric::SystemUpdates,
            Metric::ServerCheck,
        ];
        assert(v@ =~= all_metrics());
        v
    }

    /// Returns the stable snake_case token used by config and CSS.
    pub fn as_str(self) -> (s: &'static str)
        ensures
            s@ == self.token(),
    {
        match self {
            Metric::CpuUsage => "cpu_usage",
            Metric::MemUsage => "mem_usage",
            Metric::SwapUsage => "swap_usage",
            Metric::CpuFreq => "cpu_freq",
            Metric::CpuTurbo => "cpu_turbo",
            Metric::CpuTemp => "cpu_temp",
            Metric::HdTemp => "hd_temp",
            Metric::DiskUsage => "disk_usage",
            Metric::DiskSmart => "disk_smart",
            Metric::GpuNvidiaTemp => "gpu_nvidia_temp",
            Metric::GpuNvidiaUsage => "gpu_nvidia_usage",
            Metric::GpuNvidiaMemUsage => "gpu_nvidia_mem_usage",
            Metric::GpuNvidiaDecoderUsage => "gpu_nvidia_dec_usage",
            Metric::GpuNvidiaFanSpeed => "gpu_nvidia_fan_speed",
            Metric::GpuIntelFreq => "gpu_intel_freq",
            Metric::GpuIntelUsage => "gpu_intel_usage",
            Metric::GpuIntelDecoderUsage => "gpu_intel_dec_usage",
            Metric::ScreenBrightness => "screen_brightness",
            Metric::FanSpeed => "fan_speed",
            Metric::BatterySystem => "battery_sys",
            Metric::BatteryMouse => "battery_mouse",
            Metric::BatteryKeyboard => "battery_kbd",
            Metric::NetSpeed => "net_speed",
            Metric::DiskIo => "disk_io",
            Metric::NetDevice => "net_device",
            Metric::NetIp => "net_ip",
            Metric::NetDeviceIp => "net_device_ip",
            Metric::WifiSsid => "wifi_ssid",
            Metric::WifiSignal => "wifi_signal",
            Metric::WifiSsidSignal => "wifi_ssid_signal",
            Metric::Uptime => "uptime",
            Metric::LoadAverage => "load_avg",
            Metric::TopProcess => "top_process",
            Metric::SystemUpdates => "system_updates",
            Metric::ServerCheck => "server_check",
        }
    }

    /// Returns the metadata of the metric.
    pub fn spec(self) -> (r: MetricSpec)
        ensures
            r.metric == self,
            r.capabilities@ == self.needed_capabilities(),
            r.generic_forms@ == self.forms(),
            forall|s: Surface| r.surfaces.has(s) == self.admits(s),
            r.intrinsic_shape == self.shape(),
    {
        let capabilities: Vec<Capability> = match self {
            Metric::CpuUsage => Vec::new(),
            Metric::MemUsage => Vec::new(),
            Metric::SwapUsage => vec![Capability::SwapUsage],
            Metric::CpuFreq => vec![Capability::CpuFrequency, Capability::CpuTurbo],
            Metric::CpuTurbo => vec![Capability::CpuTurbo],
            Metric::CpuTemp => vec![Capability::CpuTemperature],
            Metric::HdTemp => vec![Capability::DiskTemperature],
            Metric::DiskUsage => vec![Capability::DiskUsage],
            Metric::DiskSmart => vec![Capability::DiskSmart],
            Metric::GpuNvidiaTemp => vec![Capability::GpuNvidia],
            Metric::GpuNvidiaUsage => vec![Capability::GpuNvidia],
            Metric::GpuNvidiaMemUsage => vec![Capability::GpuNvidia],
            Metric::GpuNvidiaDecoderUsage => vec![Capability::GpuNvidia],
            Metric::GpuNvidiaFanSpeed => vec![Capability::GpuNvidia],
            Metric::GpuIntelFreq => vec![Capability::GpuIntelFrequency],
            Metric::GpuIntelUsage => vec![Capability::GpuIntelUsage],
            Metric::GpuIntelDecoderUsage => vec![Capability::GpuIntelDecoder],
            Metric::ScreenBrightness => vec![Capability::ScreenBrightness],
            Metric::FanSpeed => vec![Capability::FanSpeed],
            Metric::BatterySystem => vec![Capability::BatterySystem],
            Metric::BatteryMouse => vec![Capability::BatteryMouse],
            Metric::BatteryKeyboard => vec![Capability::BatteryKeyboard],
            Metric::NetSpeed => vec![Capability::NetworkSpeed],
            Metric::DiskIo => vec![Capability::DiskIo],
            Metric::NetDevice => vec![Capability::NetworkInfo],
            Metric::NetIp => vec![Capability::NetworkInfo],
            Metric::NetDeviceIp => vec![Capability::NetworkInfo],
            Metric::WifiSsid => vec![Capability::NetworkInfo],
            Metric::WifiSignal => vec![Capability::NetworkInfo],
            Metric::WifiSsidSignal => vec![Capability::NetworkInfo],
            Metric::Uptime => vec![Capability::Uptime],
            Metric::LoadAverage => vec![Capability::LoadAverage],
            Metric::TopProcess => vec![Capability::TopProcess],
            Metric::SystemUpdates => vec![Capability::SystemUpdates],
            Metric::ServerCheck => vec![Capability::ServerCheck],
        };
        let generic_forms: Vec<Form> = match self {
            Metric::CpuUsage => historied_forms(),
            Metric::MemUsage => historied_forms(),
            Metric::SwapUsage => value_only(),
            Metric::CpuFreq => value_only(),
            Metric::CpuTurbo => value_only(),
            Metric::CpuTemp => value_only(),
            Metric::HdTemp => value_or_pair(),
            Metric::DiskUsage => value_only(),
            Metric::DiskSmart => pair_only(),
            Metric::GpuNvidiaTemp => value_only(),
            Metric::GpuNvidiaUsage => value_only(),
            Metric::GpuNvidiaMemUsage => value_only(),
            Metric::GpuNvidiaDecoderUsage => value_only(),
            Metric::GpuNvidiaFanSpeed => value_only(),
            Metric::GpuIntelFreq => value_only(),
            Metric::GpuIntelUsage => value_only(),
            Metric::GpuIntelDecoderUsage => value_only(),
            Metric::ScreenBrightness => value_only(),
            Metric::FanSpeed => value_or_pair(),
            Metric::BatterySystem => value_only(),
            Metric::BatteryMouse => value_only(),
            Metric::BatteryKeyboard => value_only(),
            Metric::NetSpeed => Vec::new(),
            Metric::DiskIo => Vec::new(),
            Metric::NetDevice => value_only(),
            Metric::NetIp => value_only(),
            Metric::NetDeviceIp => value_only(),
            Metric::WifiSsid => value_only(),
            Metric::WifiSignal => value_only(),
            Metric::WifiSsidSignal => value_only(),
            Metric::Uptime => value_only(),
            Metric::LoadAverage => value_only(),
            Metric::TopProcess => Vec::new(),
            Metric::SystemUpdates => value_only(),
            Metric::ServerCheck => value_only(),
        };
        let surfaces = match self {
            Metric::DiskSmart => SurfaceSet::tooltip(),
            Metric::NetDevice => SurfaceSet::tooltip(),
            Metric::NetIp => SurfaceSet::tooltip(),
            Metric::NetDeviceIp => SurfaceSet::tooltip(),
            Metric::WifiSsid => SurfaceSet::tooltip(),
            Metric::WifiSsidSignal => SurfaceSet::tooltip(),
            Metric::Uptime => SurfaceSet::tooltip(),
            Metric::LoadAverage => SurfaceSet::tooltip(),
            Metric::TopProcess => SurfaceSet::tooltip(),
            _ => SurfaceSet::all(),
        };
        let intrinsic_shape = match self {
            Metric::NetSpeed | Metric::DiskIo => Some(Shape::Duo),
            Metric::TopProcess => Some(Shape::TripleL),
            _ => None,
        };
        proof {
            assert(capabilities@ =~= self.needed_capabilities());
        }
        MetricSpec { metric: self, capabilities, generic_forms, surfaces, intrinsic_shape }
    }

    /// Returns `true` when the metric accepts the provided generic form.
    pub fn supports_form(self, form: Form) -> (r: bool)
        ensures
            r == self.forms().contains(form),
    {
        let forms = self.spec().generic_forms;
        let mut i: usize = 0;
        while i < forms.len()
            invariant
                forms@ == self.forms(),
                i <= forms@.len(),
                forall|j: int| 0 <= j < i ==> forms@[j] != form,
            decreases forms@.len() - i,
        {
            if forms[i] == form {
                assert(forms@[i as int] == form);
                return true;
            }
            i = i + 1;
        }
        false
    }

    /// Returns the metric-level surfaces before form intersection.
    pub fn surfaces(self) -> (r: SurfaceSet)
        ensures
            forall|s: Surface| r.has(s) == self.admits(s),
    {
        self.spec().surfaces
    }

    /// Returns the metric's intrinsic shape, if any.
    pub fn intrinsic_shape(self) -> (r: Option<Shape>)
        ensures
            r == self.shape(),
    {
        self.spec().intrinsic_shape
    }

    /// Returns the metric's capability requirements.
    pub fn capabilities(self) -> (r: Vec<Capability>)
        ensures
            r@ == self.needed_capabilities(),
    {
        self.spec().capabilities
    }

    /// Parses a metric token.
    pub fn parse(value: &str) -> (r: Result<Metric, MetricParseError>)
        ensures
            match r {
                Ok(m) => metric_named(value@) == Some(m),
                Err(e) => e.value@ == value@ && metric_named(value@) is None,
            },
    {
        let all = Metric::all();
        let mut i: usize = 0;
        while i < all.len()
            invariant
                all@ == all_metrics(),
                i <= all@.len(),
                forall|j: int| 0 <= j < i ==> value@ != #[trigger] all@[j].token(),
            decreases all@.len() - i,
        {
            if str_eq(value, all[i].as_str()) {
                proof {
                    let j = choose|j: int|
                        0 <= j < all_metrics().len() && all_metrics()[j].token() == value@
                            && forall|k: int| 0 <= k < j ==> all_metrics()[k].token() != value@;
                    assert(all@[i as int].token() == value@);
                    if j < i {
                        assert(value@ != all@[j].token());
                    } else if j > i {
                    }
                }
                return Ok(all[i]);
            }
            i = i + 1;
        }
        Err(MetricParseError { value: owned(value) })
    }
}

/// The metric a token names: the first metric (in registry order) whose
/// token it is.
pub open spec fn metric_named(s: Seq<char>) -> Option<Metric> {
    if exists|j: int| 0 <= j < all_metrics().len() && all_metrics()[j].token() == s {
        Some(
            all_metrics()[choose|j: int|
                0 <= j < all_metrics().len() && all_metrics()[j].token() == s && forall|k: int|
                    0 <= k < j ==> all_metrics()[k].token() != s],
        )
    } else {
        None
    }
}

/// A metric's own token names it: printing a metric and reading the token
/// back gives the same metric.
pub proof fn lemma_metric_token_round_trip(m: Metric)
    ensures
        metric_named(m.token()) == Some(m),
{
    reveal_strlit("cpu_usage");
    reveal_strlit("mem_usage");
    reveal_strlit("swap_usage");
    reveal_strlit("cpu_freq");
    reveal_strlit("cpu_turbo");
    reveal_strlit("cpu_temp");
    reveal_strlit("hd_temp");
    reveal_strlit("disk_usage");
    reveal_strlit("disk_smart");
    reveal_strlit("gpu_nvidia_temp");
    reveal_strlit("gpu_nvidia_usage");
    reveal_strlit("gpu_nvidia_mem_usage");
    reveal_strlit("gpu_nvidia_dec_usage");
    reveal_strlit("gpu_nvidia_fan_speed");
    reveal_strlit("gpu_intel_freq");
    reveal_strlit("gpu_intel_usage");
    reveal_strlit("gpu_intel_dec_usage");
    reveal_strlit("screen_brightness");
    reveal_strlit("fan_speed");
    reveal_strlit("battery_sys");
    reveal_strlit("battery_mouse");
    reveal_strlit("battery_kbd");
    reveal_strlit("net_speed");
    reveal_strlit("disk_io");
    reveal_strlit("net_device");
    reveal_strlit("net_ip");
    reveal_strlit("net_device_ip");
    reveal_strlit("wifi_ssid");
    reveal_strlit("wifi_signal");
    reveal_strlit("wifi_ssid_signal");
    reveal_strlit("uptime");
    reveal_strlit("load_avg");
    reveal_strlit("top_process");
    reveal_strlit("system_updates");
    reveal_strlit("server_check");
    let all = all_metrics();
    let i: int = match m {
        Metric::CpuUsage => 0,
        Metric::MemUsage => 1,
        Metric::SwapUsage => 2,
        Metric::CpuFreq => 3,
        Metric::CpuTurbo => 4,
        Metric::CpuTemp => 5,
        Metric::HdTemp => 6,
        Metric::DiskUsage => 7,
        Metric::DiskSmart => 8,
        Metric::GpuNvidiaTemp => 9,
        Metric::GpuNvidiaUsage => 10,
        Metric::GpuNvidiaMemUsage => 11,
        Metric::GpuNvidiaDecoderUsage => 12,
        Metric::GpuNvidiaFanSpeed => 13,
        Metric::GpuIntelFreq => 14,
        Metric::GpuIntelUsage => 15,
        Metric::GpuIntelDecoderUsage => 16,
        Metric::ScreenBrightness => 17,
        Metric::FanSpeed => 18,
        Metric::BatterySystem => 19,
        Metric::BatteryMouse => 20,
        Metric::BatteryKeyboard => 21,
        Metric::NetSpeed => 22,
        Metric::DiskIo => 23,
        Metric::NetDevice => 24,
        Metric::NetIp => 25,
        Metric::NetDeviceIp => 26,
        Metric::WifiSsid => 27,
        Metric::WifiSignal => 28,
        Metric::WifiSsidSignal => 29,
        Metric::Uptime => 30,
        Metric::LoadAverage => 31,
        Metric::TopProcess => 32,
        Metric::SystemUpdates => 33,
        Metric::ServerCheck => 34,
    };
    assert(all[i] == m);
    assert forall|k: int| 0 <= k < all.len() && k != i implies all[k].token() != m.token() by {
        let a = all[k].token();
        let b = m.token();
        assert(a.len() != b.len() || a[0] != b[0] || a[4] != b[4] || a[5] != b[5] || a[8] != b[8] || a[11] != b[11]);
    }
}

impl Capability {
    /// The stable snake_case token of a capability.
    pub open spec fn token(self) -> Seq<char> {
        match self {
            Capability::SwapUsage => "swap_usage"@,
            Capability::CpuFrequency => "cpu_freq"@,
            Capability::CpuTurbo => "cpu_turbo"@,
            Capability::CpuTemperature => "cpu_temp"@,
            Capability::DiskTemperature => "hd_temp"@,
            Capability::DiskUsage => "disk_usage"@,
            Capability::DiskSmart => "disk_smart"@,
            Capability::GpuNvidia => "gpu_nvidia"@,
            Capability::GpuIntelFrequency => "gpu_intel_freq"@,
            Capability::GpuIntelUsage => "gpu_intel_usage"@,
            Capability::GpuIntelDecoder => "gpu_intel_dec"@,
            Capability::ScreenBrightness => "screen_brightness"@,
            Capability::FanSpeed => "fan_speed"@,
            Capability::BatterySystem => "battery_sys"@,
            Capability::BatteryMouse => "battery_mouse"@,
            Capability::BatteryKeyboard => "battery_kbd"@,
            Capability::NetworkSpeed => "net_speed"@,
            Capability::DiskIo => "disk_io"@,
            Capability::NetworkInfo => "net_info"@,
            Capability::Uptime => "uptime"@,
            Capability::LoadAverage => "load_avg"@,
            Capability::TopProcess => "top_process"@,
            Capability::SystemUpdates => "system_updates"@,
            Capability::ServerCheck => "server_check"@,
        }
    }

    /// Returns the stable snake_case token of the capability.
    pub fn as_str(self) -> (s: &'static str)
        ensures
            s@ == self.token(),
    {
        match self {
            Capability::SwapUsage => "swap_usage",
            Capability::CpuFrequency => "cpu_freq",
            Capability::CpuTurbo => "cpu_turbo",
            Capability::CpuTemperature => "cpu_temp",
            Capability::DiskTemperature => "hd_temp",
            Capability::DiskUsage => "disk_usage",
            Capability::DiskSmart => "disk_smart",
            Capability::GpuNvidia => "gpu_nvidia",
            Capability::GpuIntelFrequency => "gpu_intel_freq",
            Capability::GpuIntelUsage => "gpu_intel_usage",
            Capability::GpuIntelDecoder => "gpu_intel_dec",
            Capability::ScreenBrightness => "screen_brightness",
            Capability::FanSpeed => "fan_speed",
            Capability::BatterySystem => "battery_sys",
            Capability::BatteryMouse => "battery_mouse",
            Capability::BatteryKeyboard => "battery_kbd",
            Capability::NetworkSpeed => "net_speed",
            Capability::DiskIo => "disk_io",
            Capability::NetworkInfo => "net_info",
            Capability::Uptime => "uptime",
            Capability::LoadAverage => "load_avg",
            Capability::TopProcess => "top_process",
            Capability::SystemUpdates => "system_updates",
            Capability::ServerCheck => "server_check",
        }
    }
}

/// An invalid metric token.
#[derive(Debug, Clone, PartialEq, Eq)]
pub struct MetricParseError {
    /// The rejected metric token.
    pub value: String,
}

impl std::str::FromStr for Metric {
    type Err = MetricParseError;

    fn from_str(value: &str) -> (r: Result<Self, Self::Err>)
        ensures
            match r {
                Ok(m) => metric_named(value@) == Some(m),
                Err(e) => e.value@ == value@ && metric_named(value@) is None,
            },
    {
        Metric::parse(value)
    }
}

} // verus!
